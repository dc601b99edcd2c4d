//! Bedrock clients: how they are recognised, and what they are told.

use vstd::prelude::*;
use vstd::slice::slice_subrange;
use vstd::utf8::encode_utf8;
use crate::viakraken::utils::{varint_bytes, write_unsigned_varint};

verus! {

/// The bytes that every offline RakNet message holds.
pub open spec fn raknet_magic() -> Seq<u8> {
    seq![
        0x00u8, 0xff, 0xff, 0x00, 0xfe, 0xfe, 0xfe, 0xfe, 0xfd, 0xfd, 0xfd, 0xfd, 0x12, 0x34, 0x56,
        0x78,
    ]
}

fn magic_bytes() -> (v: Vec<u8>)
    ensures
        v@ == raknet_magic(),
{
    vec![
        0x00, 0xff, 0xff, 0x00, 0xfe, 0xfe, 0xfe, 0xfe, 0xfd, 0xfd, 0xfd, 0xfd, 0x12, 0x34, 0x56,
        0x78,
    ]
}

/// Whether `part` occurs in `data` at `at`.
pub open spec fn occurs_at(data: Seq<u8>, part: Seq<u8>, at: int) -> bool {
    0 <= at && at + part.len() <= data.len() && data.subrange(at, at + part.len()) == part
}

/// Whether the first bytes of a connection look like those of a Bedrock
/// client: an offline message number, or the magic bytes anywhere.
pub open spec fn looks_like_bedrock(data: Seq<u8>) -> bool {
    data.len() > 0 && (data[0] == 0x01 || data[0] == 0x05 || data[0] == 0x07 || data[0] == 0x09
        || data[0] == 0x1c || exists|at: int| occurs_at(data, raknet_magic(), at))
}

fn same_bytes(a: &[u8], b: &[u8]) -> (r: bool)
    ensures
        r == (a@ == b@),
{
    if a.len() != b.len() {
        return false;
    }
    let mut i: usize = 0;
    while i < a.len()
        invariant
            i <= a.len(),
            a.len() == b.len(),
            forall|k: int| 0 <= k < i ==> a@[k] == b@[k],
        decreases a.len() - i,
    {
        if a[i] != b[i] {
            return false;
        }
        i += 1;
    }
    assert(a@ =~= b@);
    true
}

/// Decides by the first bytes of a connection.
pub fn is_probably_bedrock(data: &[u8]) -> (r: bool)
    ensures
        r == looks_like_bedrock(data@),
{
    if data.len() == 0 {
        return false;
    }
    let first: u8 = data[0];
    if first == 0x01 || first == 0x05 || first == 0x07 || first == 0x09 || first == 0x1c {
        return true;
    }
    let magic = magic_bytes();
    let mut at: usize = 0;
    while at < data.len() && data.len() - at >= 16
        invariant
            at <= data.len(),
            magic@ == raknet_magic(),
            forall|k: int| 0 <= k < at ==> !occurs_at(data@, raknet_magic(), k),
        decreases data.len() - at,
    {
        if same_bytes(slice_subrange(data, at, at + 16), magic.as_slice()) {
            assert(occurs_at(data@, raknet_magic(), at as int));
            return true;
        }
        at += 1;
    }
    assert forall|k: int| !occurs_at(data@, raknet_magic(), k) by {
        if occurs_at(data@, raknet_magic(), k) {
            assert(k < at);
        }
    }
    false
}

/// The packet that turns a Bedrock client away: reason, two flags, the message
/// and two empty ones.
pub open spec fn bedrock_refusal_bytes() -> Seq<u8> {
    let message = encode_utf8("Bedrock Support Coming Soon"@);
    seq![0x05u8] + varint_bytes(2) + seq![0u8, 0u8] + varint_bytes(message.len() as u32) + message
        + varint_bytes(0) + varint_bytes(0)
}

pub fn handle_bedrock_disconnect() -> (payload: Vec<u8>)
    ensures
        payload@ == bedrock_refusal_bytes(),
{
    let message = "Bedrock Support Coming Soon".as_bytes();
    let mut payload: Vec<u8> = Vec::new();
    payload.push(0x05);
    write_unsigned_varint(&mut payload, 2);
    payload.push(0x00);
    payload.push(0x00);
    write_unsigned_varint(&mut payload, message.len() as u32);
    payload.extend_from_slice(message);
    write_unsigned_varint(&mut payload, 0);
    write_unsigned_varint(&mut payload, 0);
    assert(payload@ =~= bedrock_refusal_bytes());
    payload
}

} // verus!
