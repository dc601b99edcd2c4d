//! The early relay: it hands the connection over as soon as the backend has
//! let the player in, and leaves the configuration to the bridge.

use vstd::prelude::*;
use vstd::slice::slice_to_vec;
use crate::error::PacketError;
use crate::viakraken::bedrock::{is_probably_bedrock, looks_like_bedrock};
use crate::viakraken::java::connection::{decide_ingress, ingress_of, Ingress};
use crate::viakraken::java::handoff::{law_login_success_can_be_rebuilt, login_success_read, parse_backend_login_success, HandoffOutcome, OutcomeText};
use crate::viakraken::java::packets::{build_login_success_packet, login_success_bytes};
use crate::viakraken::java::protocol::{handshake_read, parse_handshake};
use crate::viakraken::java::support;
use crate::viakraken::java::support::login_supported;
use crate::viakraken::utils::{packet_id, varint_read, MAX_PACKET_LEN};

verus! {

/// The relay lets in what the backend supports.
pub fn is_supported_login_protocol(protocol: i32) -> (r: bool)
    ensures
        r == login_supported(protocol),
{
    support::is_supported_login_protocol(protocol)
}

/// Who is at the other end of a new connection.
#[derive(Clone, Copy, Debug, PartialEq, Eq, Structural)]
pub enum Contact {
    /// A Bedrock client, who is turned away.
    Bedrock,
    Java(Ingress),
}

/// The decision on a connection: by its first bytes whether it is a Bedrock
/// client, else by the handshake.
pub open spec fn contact_of(sniffed: Seq<u8>, first_packet: Seq<u8>) -> Result<
    Contact,
    PacketError,
> {
    if looks_like_bedrock(sniffed) {
        Ok(Contact::Bedrock)
    } else {
        match handshake_read(first_packet) {
            Ok(h) => Ok(Contact::Java(ingress_of(h, login_supported(h.protocol_version)))),
            Err(e) => Err(e),
        }
    }
}

/// Decides what to do with a new connection. `sniffed` holds the bytes that
/// have arrived, and `first_packet` the packet that they begin; that of a
/// Bedrock client is not looked at.
pub fn handle_connection(sniffed: &[u8], first_packet: &[u8]) -> (r: Result<Contact, PacketError>)
    ensures
        r == contact_of(sniffed@, first_packet@),
{
    if is_probably_bedrock(sniffed) {
        return Ok(Contact::Bedrock);
    }
    match parse_handshake(first_packet) {
        Ok(handshake) => Ok(
            Contact::Java(
                decide_ingress(handshake, is_supported_login_protocol(handshake.protocol_version)),
            ),
        ),
        Err(e) => Err(e),
    }
}

/// What a packet from the backend does: the payload for the client, and the
/// outcome. Login Success, with identifier 2, is rewritten and ends the
/// handoff; a refusal, with identifier 0, ends it too.
pub open spec fn relay_step(protocol_version: i32, packet: Seq<u8>) -> Result<
    (Seq<u8>, OutcomeText),
    PacketError,
> {
    match varint_read(packet, 0).0 {
        Err(e) => Err(e),
        Ok(id) => if id == 2 {
            match login_success_read(packet) {
                Err(e) => Err(e),
                Ok(core) => Ok(
                    (
                        login_success_bytes(core, protocol_version >= 767),
                        OutcomeText::Established(core.username),
                    ),
                ),
            }
        } else if id == 0 {
            Ok((packet, OutcomeText::Disconnected))
        } else {
            Ok((packet, OutcomeText::Relaying))
        },
    }
}

pub fn relay_login_handoff(protocol_version: i32, packet: &[u8]) -> (r: Result<
    (Vec<u8>, HandoffOutcome),
    PacketError,
>)
    requires
        packet@.len() <= MAX_PACKET_LEN,
    ensures
        match relay_step(protocol_version, packet@) {
            Ok((payload, outcome)) => r matches Ok((p, o)) && p@ == payload && o@ == outcome,
            Err(e) => r == Err::<(Vec<u8>, HandoffOutcome), PacketError>(e),
        },
{
    let id: i32 = match packet_id(packet) {
        Ok(id) => id,
        Err(e) => return Err(e),
    };
    if id == 0x02 {
        let core = match parse_backend_login_success(packet) {
            Ok(core) => core,
            Err(e) => return Err(e),
        };
        let strict = protocol_version >= 767;
        proof {
            law_login_success_can_be_rebuilt(packet@, strict);
        }
        match build_login_success_packet(&core, strict) {
            Ok(rebuilt) => Ok(
                (slice_to_vec(rebuilt.as_slice()), HandoffOutcome::Established(core.username)),
            ),
            Err(e) => Err(e),
        }
    } else if id == 0x00 {
        Ok((slice_to_vec(packet), HandoffOutcome::Disconnected))
    } else {
        Ok((slice_to_vec(packet), HandoffOutcome::Relaying))
    }
}

} // verus!
