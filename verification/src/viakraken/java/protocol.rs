//! Decoding of the first packets of a connection.

use vstd::prelude::*;
use vstd::slice::slice_subrange;
use crate::big_endian::{be_bytes, be_value, lemma_be_bytes_len, lemma_be_limits, lemma_be_round_trip, read_be};
use crate::error::PacketError;
use crate::viakraken::java::types::HandshakeInfo;
use crate::viakraken::utils::{law_string_round_trip, law_varint_round_trip, lemma_stands_split, read_string_from_slice, read_varint_from_slice, stands_at, string_bytes, string_fits, string_read, varint_bytes, varint_read};

verus! {

/// What a handshake packet says: after the identifier 0 come the protocol
/// version, the server address, a two-byte port and the requested state.
pub open spec fn handshake_read(payload: Seq<u8>) -> Result<HandshakeInfo, PacketError> {
    let (id, version_at) = varint_read(payload, 0);
    let (version, address_at) = varint_read(payload, version_at);
    let (address, port_at) = string_read(payload, address_at);
    let (next, _) = varint_read(payload, port_at + 2);
    if id is Err {
        Err(id->Err_0)
    } else if id->Ok_0 != 0 {
        Err(PacketError::NotHandshake)
    } else if version is Err {
        Err(version->Err_0)
    } else if address is Err {
        Err(address->Err_0)
    } else if port_at + 2 > payload.len() {
        Err(PacketError::MissingHandshakePort)
    } else if next is Err {
        Err(next->Err_0)
    } else {
        Ok(HandshakeInfo { protocol_version: version->Ok_0, next_state: next->Ok_0 })
    }
}

pub fn parse_handshake(payload: &[u8]) -> (r: Result<HandshakeInfo, PacketError>)
    ensures
        r == handshake_read(payload@),
{
    let mut offset: usize = 0;
    let packet_id: i32 = match read_varint_from_slice(payload, &mut offset) {
        Ok(id) => id,
        Err(e) => return Err(e),
    };
    if packet_id != 0x00 {
        return Err(PacketError::NotHandshake);
    }
    let protocol_version: i32 = match read_varint_from_slice(payload, &mut offset) {
        Ok(version) => version,
        Err(e) => return Err(e),
    };
    match read_string_from_slice(payload, &mut offset) {
        Ok(_) => {},
        Err(e) => return Err(e),
    }
    if payload.len() - offset < 2 {
        return Err(PacketError::MissingHandshakePort);
    }
    offset = offset + 2;
    match read_varint_from_slice(payload, &mut offset) {
        Ok(next_state) => Ok(HandshakeInfo { protocol_version, next_state }),
        Err(e) => Err(e),
    }
}

/// What a Login Start packet says: after the identifier 0 the name of the
/// player, and the identity that the client claims if sixteen bytes follow.
pub open spec fn login_start_read(packet: Seq<u8>) -> Result<
    (Seq<char>, Option<u128>),
    PacketError,
> {
    let (id, name_at) = varint_read(packet, 0);
    let (name, uuid_at) = string_read(packet, name_at);
    if id is Err {
        Err(id->Err_0)
    } else if id->Ok_0 != 0 {
        Err(PacketError::NotLoginStart(id->Ok_0))
    } else if name is Err {
        Err(name->Err_0)
    } else {
        Ok(
            (
                name->Ok_0,
                if uuid_at + 16 <= packet.len() {
                    Some(be_value(packet.subrange(uuid_at, uuid_at + 16)) as u128)
                } else {
                    None
                },
            ),
        )
    }
}

pub fn parse_login_start(packet: &[u8]) -> (r: Result<(String, Option<u128>), PacketError>)
    ensures
        match login_start_read(packet@) {
            Ok((name, uuid)) => r matches Ok((n, u)) && n@ == name && u == uuid,
            Err(e) => r == Err::<(String, Option<u128>), PacketError>(e),
        },
{
    let mut offset: usize = 0;
    let id: i32 = match read_varint_from_slice(packet, &mut offset) {
        Ok(id) => id,
        Err(e) => return Err(e),
    };
    if id != 0x00 {
        return Err(PacketError::NotLoginStart(id));
    }
    let username = match read_string_from_slice(packet, &mut offset) {
        Ok(name) => name,
        Err(e) => return Err(e),
    };
    let uuid: Option<u128> = if packet.len() - offset >= 16 {
        Some(read_be(slice_subrange(packet, offset, offset + 16)))
    } else {
        None
    };
    Ok((username, uuid))
}

pub fn parse_login_start_username(packet: &[u8]) -> (r: Result<String, PacketError>)
    ensures
        match login_start_read(packet@) {
            Ok((name, _)) => r matches Ok(n) && n@ == name,
            Err(e) => r == Err::<String, PacketError>(e),
        },
{
    match parse_login_start(packet) {
        Ok((username, _)) => Ok(username),
        Err(e) => Err(e),
    }
}

/// The encoding of a handshake.
pub open spec fn handshake_bytes(
    version: i32,
    address: Seq<char>,
    port: Seq<u8>,
    next_state: i32,
) -> Seq<u8> {
    varint_bytes(0) + (varint_bytes(version as u32) + (string_bytes(address) + (port + varint_bytes(
        next_state as u32,
    ))))
}

/// A handshake decodes to the version and the state that were encoded,
/// whatever address and port stand between them.
pub proof fn law_handshake_round_trip(
    version: i32,
    address: Seq<char>,
    port: Seq<u8>,
    next_state: i32,
)
    requires
        string_fits(address),
        port.len() == 2,
    ensures
        handshake_read(handshake_bytes(version, address, port, next_state)) == Ok::<
            HandshakeInfo,
            PacketError,
        >(HandshakeInfo { protocol_version: version, next_state }),
{
    let data = handshake_bytes(version, address, port, next_state);
    let d4 = port + varint_bytes(next_state as u32);
    let d3 = string_bytes(address) + d4;
    let d2 = varint_bytes(version as u32) + d3;
    assert(data.subrange(0, data.len() as int) =~= data);
    let a1 = varint_bytes(0).len() as int;
    let a2 = a1 + varint_bytes(version as u32).len();
    let a3 = a2 + string_bytes(address).len();
    lemma_stands_split(data, 0, varint_bytes(0), d2);
    lemma_stands_split(data, a1, varint_bytes(version as u32), d3);
    lemma_stands_split(data, a2, string_bytes(address), d4);
    lemma_stands_split(data, a3, port, varint_bytes(next_state as u32));
    law_varint_round_trip(data, 0, 0);
    law_varint_round_trip(data, a1, version);
    law_string_round_trip(data, a2, address);
    law_varint_round_trip(data, a3 + 2, next_state);
}

/// A Login Start packet decodes to the name and the identity that were encoded.
pub proof fn law_login_start_round_trip(name: Seq<char>, uuid: u128)
    requires
        string_fits(name),
    ensures
        login_start_read(
            varint_bytes(0) + (string_bytes(name) + be_bytes(uuid as nat, 16)),
        ) == Ok::<(Seq<char>, Option<u128>), PacketError>((name, Some(uuid))),
        login_start_read(varint_bytes(0) + (string_bytes(name) + Seq::<u8>::empty())) == Ok::<
            (Seq<char>, Option<u128>),
            PacketError,
        >((name, None)),
{
    lemma_be_bytes_len(uuid as nat, 16);
    lemma_be_limits();
    lemma_be_round_trip(uuid as nat, 16);
    lemma_login_start(name, be_bytes(uuid as nat, 16));
    lemma_login_start(name, Seq::<u8>::empty());
}

proof fn lemma_login_start(name: Seq<char>, tail: Seq<u8>)
    requires
        string_fits(name),
        tail.len() == 16 || tail.len() == 0,
    ensures
        login_start_read(varint_bytes(0) + (string_bytes(name) + tail)) == Ok::<
            (Seq<char>, Option<u128>),
            PacketError,
        >(
            (
                name,
                if tail.len() == 16 {
                    Some(be_value(tail) as u128)
                } else {
                    None
                },
            ),
        ),
{
    let data = varint_bytes(0) + (string_bytes(name) + tail);
    assert(data.subrange(0, data.len() as int) =~= data);
    let a1 = varint_bytes(0).len() as int;
    lemma_stands_split(data, 0, varint_bytes(0), string_bytes(name) + tail);
    lemma_stands_split(data, a1, string_bytes(name), tail);
    law_varint_round_trip(data, 0, 0);
    law_string_round_trip(data, a1, name);
    assert(stands_at(data, a1 + string_bytes(name).len(), tail));
}

} // verus!
