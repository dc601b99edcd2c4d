//! Login and configuration packets, built byte by byte.

use vstd::prelude::*;
use vstd::string::StringExecFns;
use crate::big_endian::{be_bytes, lemma_be_bytes_len, push_be};
use crate::error::PacketError;
use crate::viakraken::java::types::{LoginSuccessCore, LoginSuccessText, Property, PropertyText};
use crate::viakraken::utils::{bool_bytes, escaped, frame_bytes, json_escape, lemma_varint_bytes_len, string_bytes, string_fits, varint_bytes, write_framed_payload, write_string, write_varint_buffer, ByteBuffer, MAX_PACKET_LEN};

verus! {

pub open spec fn property_bytes(p: PropertyText) -> Seq<u8> {
    string_bytes(p.name) + (string_bytes(p.value) + (match p.signature {
        Some(signature) => bool_bytes(true) + string_bytes(signature),
        None => bool_bytes(false),
    }))
}

pub open spec fn property_fits(p: PropertyText) -> bool {
    string_fits(p.name) && string_fits(p.value) && (p.signature matches Some(signature)
        ==> string_fits(signature))
}

pub open spec fn properties_bytes(ps: Seq<PropertyText>) -> Seq<u8>
    decreases ps.len(),
{
    if ps.len() == 0 {
        Seq::empty()
    } else {
        property_bytes(ps[0]) + properties_bytes(ps.drop_first())
    }
}

/// A Login Success packet: identifier 2, the identity, the name, the
/// properties and the flag for strict error handling.
pub open spec fn login_success_bytes(core: LoginSuccessText, strict: bool) -> Seq<u8> {
    varint_bytes(2) + (be_bytes(core.uuid as nat, 16) + (string_bytes(core.username) + (
    varint_bytes((core.properties.len() as i32) as u32) + (properties_bytes(core.properties)
        + bool_bytes(strict)))))
}

pub open spec fn login_success_fits(core: LoginSuccessText) -> bool {
    string_fits(core.username) && forall|i: int|
        0 <= i < core.properties.len() ==> property_fits(#[trigger] core.properties[i])
}

proof fn lemma_properties_bytes_snoc(ps: Seq<PropertyText>, p: PropertyText)
    ensures
        properties_bytes(ps.push(p)) == properties_bytes(ps) + property_bytes(p),
    decreases ps.len(),
{
    if ps.len() == 0 {
        assert(ps.push(p).drop_first() =~= Seq::<PropertyText>::empty());
        assert(properties_bytes(ps.push(p).drop_first()) =~= Seq::<u8>::empty());
        assert(properties_bytes(ps) =~= Seq::<u8>::empty());
        assert(properties_bytes(ps.push(p)) =~= properties_bytes(ps) + property_bytes(p));
    } else {
        lemma_properties_bytes_snoc(ps.drop_first(), p);
        assert(ps.push(p).drop_first() =~= ps.drop_first().push(p));
        assert(properties_bytes(ps.push(p)) =~= properties_bytes(ps) + property_bytes(p));
    }
}

proof fn lemma_properties_bytes_prefix(ps: Seq<PropertyText>, n: int)
    requires
        0 <= n <= ps.len(),
    ensures
        properties_bytes(ps.take(n)).len() <= properties_bytes(ps).len(),
    decreases ps.len() - n,
{
    if n < ps.len() {
        lemma_properties_bytes_prefix(ps, n + 1);
        assert(ps.take(n + 1) =~= ps.take(n).push(ps[n]));
        lemma_properties_bytes_snoc(ps.take(n), ps[n]);
    } else {
        assert(ps.take(n) =~= ps);
    }
}

/// The bytes of one property, unless one of its texts is too long.
fn property_entry(prop: &Property) -> (r: Result<Vec<u8>, PacketError>)
    ensures
        r is Ok <==> property_fits(prop@),
        r matches Ok(entry) ==> entry@ == property_bytes(prop@),
        r matches Err(e) ==> e == PacketError::StringTooLong,
{
    let mut entry: Vec<u8> = Vec::new();
    match write_string(&mut entry, prop.name.as_str()) {
        Ok(_) => {},
        Err(e) => return Err(e),
    }
    match write_string(&mut entry, prop.value.as_str()) {
        Ok(_) => {},
        Err(e) => return Err(e),
    }
    match &prop.signature {
        Some(signature) => {
            entry.push(1);
            match write_string(&mut entry, signature.as_str()) {
                Ok(_) => {},
                Err(e) => return Err(e),
            }
        },
        None => entry.push(0),
    }
    assert(entry@ =~= property_bytes(prop@));
    Ok(entry)
}

pub fn build_login_success_packet(core: &LoginSuccessCore, strict_error_handling: bool) -> (r:
    Result<ByteBuffer, PacketError>)
    requires
        login_success_bytes(core@, strict_error_handling).len() <= isize::MAX,
    ensures
        r is Ok <==> login_success_fits(core@),
        r matches Ok(b) ==> b@ == login_success_bytes(core@, strict_error_handling),
        r matches Err(e) ==> e == PacketError::StringTooLong,
{
    let ghost view = core@;
    let ghost count = varint_bytes((view.properties.len() as i32) as u32);
    let ghost head = varint_bytes(2) + (be_bytes(view.uuid as nat, 16) + (string_bytes(
        view.username,
    ) + count));
    proof {
        lemma_be_bytes_len(view.uuid as nat, 16);
        lemma_varint_bytes_len(2);
        lemma_varint_bytes_len((view.properties.len() as i32) as u32);
        assert(login_success_bytes(view, strict_error_handling).len() == head.len()
            + properties_bytes(view.properties).len() + 1);
    }
    let mut payload = ByteBuffer::new();
    write_varint_buffer(&mut payload, 0x02);
    let mut uuid_buf: Vec<u8> = Vec::new();
    push_be(&mut uuid_buf, core.uuid, 16);
    payload.extend_from_slice(uuid_buf.as_slice());
    let mut username_buf: Vec<u8> = Vec::new();
    match write_string(&mut username_buf, core.username.as_str()) {
        Ok(_) => {},
        Err(e) => return Err(e),
    }
    payload.extend_from_slice(username_buf.as_slice());
    write_varint_buffer(&mut payload, core.properties.len() as i32);
    assert(payload@ =~= head);
    let mut i: usize = 0;
    assert(view.properties.take(0) =~= Seq::<PropertyText>::empty());
    assert(payload@ =~= head + properties_bytes(view.properties.take(0)));
    while i < core.properties.len()
        invariant
            i <= core.properties.len(),
            view == core@,
            payload@ == head + properties_bytes(view.properties.take(i as int)),
            head.len() + properties_bytes(view.properties).len() + 1 <= isize::MAX,
            forall|j: int| 0 <= j < i ==> property_fits(#[trigger] view.properties[j]),
        decreases core.properties.len() - i,
    {
        assert(view.properties[i as int] == core.properties[i as int]@);
        let entry = match property_entry(&core.properties[i]) {
            Ok(entry) => entry,
            Err(e) => return Err(e),
        };
        proof {
            let ps = view.properties;
            lemma_properties_bytes_prefix(ps, i + 1);
            assert(ps.take(i + 1) =~= ps.take(i as int).push(ps[i as int]));
            lemma_properties_bytes_snoc(ps.take(i as int), ps[i as int]);
        }
        payload.extend_from_slice(entry.as_slice());
        assert(payload@ =~= head + properties_bytes(view.properties.take(i + 1)));
        i += 1;
    }
    assert(view.properties.take(i as int) =~= view.properties);
    payload.push(if strict_error_handling {
        1
    } else {
        0
    });
    assert(payload@ =~= login_success_bytes(view, strict_error_handling));
    Ok(payload)
}

/// A Disconnect packet: identifier 0 and the reason as JSON.
pub open spec fn disconnect_bytes(reason_json: Seq<char>) -> Seq<u8> {
    varint_bytes(0) + string_bytes(reason_json)
}

pub fn build_disconnect_packet(reason_json: &str) -> (r: Result<ByteBuffer, PacketError>)
    requires
        disconnect_bytes(reason_json@).len() <= isize::MAX,
    ensures
        r is Ok <==> string_fits(reason_json@),
        r matches Ok(b) ==> b@ == disconnect_bytes(reason_json@),
        r matches Err(e) ==> e == PacketError::StringTooLong,
{
    let mut payload = ByteBuffer::new();
    proof {
        lemma_varint_bytes_len(0);
    }
    write_varint_buffer(&mut payload, 0x00);
    let mut reason_buf: Vec<u8> = Vec::new();
    match write_string(&mut reason_buf, reason_json) {
        Ok(_) => {},
        Err(e) => return Err(e),
    }
    payload.extend_from_slice(reason_buf.as_slice());
    assert(payload@ =~= disconnect_bytes(reason_json@));
    Ok(payload)
}

/// A Known Packs packet that names no pack.
pub fn build_known_packs_packet() -> (b: ByteBuffer)
    ensures
        b@ == varint_bytes(0x0E) + varint_bytes(0),
{
    let mut payload = ByteBuffer::new();
    proof {
        lemma_varint_bytes_len(0x0E);
        lemma_varint_bytes_len(0);
    }
    write_varint_buffer(&mut payload, 0x0E);
    write_varint_buffer(&mut payload, 0);
    assert(payload@ =~= varint_bytes(0x0E) + varint_bytes(0));
    payload
}

pub fn build_finish_config_packet() -> (b: ByteBuffer)
    ensures
        b@ == varint_bytes(0x03),
{
    let mut payload = ByteBuffer::new();
    proof {
        lemma_varint_bytes_len(0x03);
    }
    write_varint_buffer(&mut payload, 0x03);
    assert(payload@ =~= varint_bytes(0x03));
    payload
}

/// A text component that shows `reason`.
pub open spec fn reason_json(reason: Seq<char>) -> Seq<char> {
    "{\"text\":\""@ + escaped(reason) + "\"}"@
}

pub fn login_disconnect_json(reason: &str) -> (s: String)
    ensures
        s@ == reason_json(reason@),
{
    let mut s = "{\"text\":\"".to_owned();
    let text = json_escape(reason);
    s.append(text.as_str());
    s.append("\"}");
    s
}

/// The frame that refuses a login with the given reason, unless it is too
/// long to send.
pub fn send_login_disconnect_json(reason: &str) -> (r: Result<ByteBuffer, PacketError>)
    requires
        disconnect_bytes(reason_json(reason@)).len() <= isize::MAX,
    ensures
        r is Ok <==> string_fits(reason_json(reason@)) && disconnect_bytes(
            reason_json(reason@),
        ).len() <= MAX_PACKET_LEN,
        r matches Ok(b) ==> b@ == frame_bytes(disconnect_bytes(reason_json(reason@))),
        r matches Err(e) ==> e == (if string_fits(reason_json(reason@)) {
            PacketError::PayloadTooLarge
        } else {
            PacketError::StringTooLong
        }),
{
    let json = login_disconnect_json(reason);
    match build_disconnect_packet(json.as_str()) {
        Ok(payload) => write_framed_payload(payload.as_slice()),
        Err(e) => Err(e),
    }
}

} // verus!
