//! The server list: the status document and the ping.

use vstd::prelude::*;
use vstd::slice::slice_subrange;
use vstd::string::StringExecFns;
use crate::config::ServerConfig;
use crate::error::PacketError;
use crate::number::{decimal, push_decimal, push_signed_decimal, signed_decimal};
use crate::viakraken::utils::{escaped, frame_bytes, json_escape, read_varint_from_slice, string_bytes, string_fits, varint_bytes, varint_read, write_packet, write_string, ByteBuffer, MAX_PACKET_LEN};

verus! {

/// A status document: the version that is advertised, the players and the
/// message of the day.
pub open spec fn status_document(
    name: Seq<char>,
    protocol: int,
    max_players: nat,
    sample: Seq<char>,
    motd: Seq<char>,
) -> Seq<char> {
    "{\"version\":{\"name\":\""@ + name + "\",\"protocol\":"@ + signed_decimal(protocol)
        + "},\"players\":{\"max\":"@ + decimal(max_players) + ",\"online\":0,\"sample\":"@ + sample
        + "},\"description\":{\"text\":\""@ + escaped(motd) + "\"}}"@
}

fn build_status_document(name: &str, protocol: i32, max_players: u32, sample: &str, motd: &str) -> (s:
    String)
    ensures
        s@ == status_document(name@, protocol as int, max_players as nat, sample@, motd@),
{
    let mut s = "{\"version\":{\"name\":\"".to_owned();
    s.append(name);
    s.append("\",\"protocol\":");
    push_signed_decimal(&mut s, protocol as i64);
    s.append("},\"players\":{\"max\":");
    push_decimal(&mut s, max_players as u64);
    s.append(",\"online\":0,\"sample\":");
    s.append(sample);
    s.append("},\"description\":{\"text\":\"");
    let text = json_escape(motd);
    s.append(text.as_str());
    s.append("\"}}");
    s
}

/// What a client of this version is shown. Clients of the two matching
/// versions see their own number; the others see the server's, and a sample
/// player who tells them that they cannot join.
pub open spec fn status_for(protocol_version: i32, max_players: u32, motd: Seq<char>) -> Seq<char> {
    if protocol_version == 774 || protocol_version == 776 {
        status_document(
            "Kraken 1.21.11"@,
            protocol_version as int,
            max_players as nat,
            "[]"@,
            motd,
        )
    } else {
        status_document(
            "Kraken 1.21.11"@,
            774,
            max_players as nat,
            "[{\"name\":\"Incompatible version!\",\"id\":\"00000000-0000-0000-0000-000000000000\"}]"@,
            motd,
        )
    }
}

pub fn status_json(protocol_version: i32, config: &ServerConfig) -> (s: String)
    ensures
        s@ == status_for(protocol_version, config.max_players, config.motd@),
{
    if protocol_version == 774 || protocol_version == 776 {
        build_status_document(
            "Kraken 1.21.11",
            protocol_version,
            config.max_players,
            "[]",
            config.motd.as_str(),
        )
    } else {
        build_status_document(
            "Kraken 1.21.11",
            774,
            config.max_players,
            "[{\"name\":\"Incompatible version!\",\"id\":\"00000000-0000-0000-0000-000000000000\"}]",
            config.motd.as_str(),
        )
    }
}

/// The document of a server that takes every client for compatible: it
/// advertises the number that the client came with.
pub fn compatible_status_json(protocol_version: i32, config: &ServerConfig) -> (s: String)
    ensures
        s@ == status_document(
            "1.21.1"@,
            protocol_version as int,
            config.max_players as nat,
            "[]"@,
            config.motd@,
        ),
{
    build_status_document(
        "1.21.1",
        protocol_version,
        config.max_players,
        "[]",
        config.motd.as_str(),
    )
}

/// Accepts a packet as a status request: its identifier has to be 0.
pub fn check_status_request(packet: &[u8]) -> (r: Result<(), PacketError>)
    ensures
        match varint_read(packet@, 0).0 {
            Ok(id) => r == (if id == 0 {
                Ok::<(), PacketError>(())
            } else {
                Err::<(), PacketError>(PacketError::NotStatusRequest)
            }),
            Err(e) => r == Err::<(), PacketError>(e),
        },
{
    let mut offset: usize = 0;
    match read_varint_from_slice(packet, &mut offset) {
        Ok(id) => if id != 0x00 {
            Err(PacketError::NotStatusRequest)
        } else {
            Ok(())
        },
        Err(e) => Err(e),
    }
}

/// The payload of a status response.
pub open spec fn status_payload(json: Seq<char>) -> Seq<u8> {
    varint_bytes(0) + string_bytes(json)
}

/// The frame that answers a status request with the given document.
pub fn status_response(json: &str) -> (r: Result<ByteBuffer, PacketError>)
    ensures
        r is Ok <==> string_fits(json@) && status_payload(json@).len() <= MAX_PACKET_LEN,
        r matches Ok(b) ==> b@ == frame_bytes(status_payload(json@)),
        r matches Err(e) ==> e == (if string_fits(json@) {
            PacketError::PayloadTooLarge
        } else {
            PacketError::StringTooLong
        }),
{
    let mut payload: Vec<u8> = Vec::new();
    match write_string(&mut payload, json) {
        Ok(_) => {},
        Err(e) => return Err(e),
    }
    assert(payload@ =~= string_bytes(json@));
    write_packet(0x00, payload.as_slice())
}

/// The frame that answers the status request of a client.
pub fn send_status_response_direct(protocol_version: i32, config: &ServerConfig) -> (r: Result<
    ByteBuffer,
    PacketError,
>)
    ensures
        ({
            let json = status_for(protocol_version, config.max_players, config.motd@);
            &&& r is Ok <==> string_fits(json) && status_payload(json).len() <= MAX_PACKET_LEN
            &&& r matches Ok(b) ==> b@ == frame_bytes(status_payload(json))
            &&& r matches Err(e) ==> e == (if string_fits(json) {
                PacketError::PayloadTooLarge
            } else {
                PacketError::StringTooLong
            })
        }),
{
    let json = status_json(protocol_version, config);
    status_response(json.as_str())
}

/// What a ping is answered with: its eight bytes, under the same identifier.
/// Anything else gets no answer.
pub open spec fn pong_for(packet: Seq<u8>) -> Result<Option<Seq<u8>>, PacketError> {
    let (id, start) = varint_read(packet, 0);
    match id {
        Err(e) => Err(e),
        Ok(id) => if id == 1 && start + 8 <= packet.len() {
            Ok(Some(frame_bytes(varint_bytes(1) + packet.subrange(start, start + 8))))
        } else {
            Ok(None)
        },
    }
}

pub fn pong_response(packet: &[u8]) -> (r: Result<Option<ByteBuffer>, PacketError>)
    ensures
        match pong_for(packet@) {
            Ok(Some(frame)) => r matches Ok(Some(b)) && b@ == frame,
            Ok(None) => r matches Ok(None),
            Err(e) => r == Err::<Option<ByteBuffer>, PacketError>(e),
        },
{
    let mut offset: usize = 0;
    let id: i32 = match read_varint_from_slice(packet, &mut offset) {
        Ok(id) => id,
        Err(e) => return Err(e),
    };
    if id == 0x01 && packet.len() - offset >= 8 {
        let echo = slice_subrange(packet, offset, offset + 8);
        proof {
            crate::viakraken::utils::lemma_varint_bytes_len(1);
        }
        match write_packet(0x01, echo) {
            Ok(frame) => Ok(Some(frame)),
            Err(e) => Err(e),
        }
    } else {
        Ok(None)
    }
}

} // verus!
