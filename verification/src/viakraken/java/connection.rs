//! What becomes of a client connection: who is let in, what is refused and
//! with which words, and when the bridge to the backend stands.

use vstd::prelude::*;
use crate::error::{decoder_exception, is_decoder_exception, ErrorClass, PacketError};
use crate::viakraken::java::handoff::HandoffOutcome;
use crate::viakraken::java::protocol::{handshake_read, login_start_read, parse_handshake, parse_login_start_username};
use crate::viakraken::java::support::{is_supported_login_protocol, login_supported};
use crate::viakraken::java::types::{HandshakeInfo, LoginStartInfo};

verus! {

/// What a handshake asks for.
#[derive(Clone, Copy, Debug, PartialEq, Eq, Structural)]
pub enum Ingress {
    /// The requested state is none that there is: the connection is dropped.
    InvalidState { next_state: i32 },
    /// Login with a version that is not supported: refused with a reason.
    UnsupportedProtocol { protocol_version: i32 },
    Status { protocol_version: i32 },
    Login { protocol_version: i32 },
}

/// The decision on a handshake, given whether its version may log in.
pub open spec fn ingress_of(handshake: HandshakeInfo, supported: bool) -> Ingress {
    if handshake.next_state == 1 {
        Ingress::Status { protocol_version: handshake.protocol_version }
    } else if handshake.next_state != 2 {
        Ingress::InvalidState { next_state: handshake.next_state }
    } else if !supported {
        Ingress::UnsupportedProtocol { protocol_version: handshake.protocol_version }
    } else {
        Ingress::Login { protocol_version: handshake.protocol_version }
    }
}

pub fn decide_ingress(handshake: HandshakeInfo, supported: bool) -> (r: Ingress)
    ensures
        r == ingress_of(handshake, supported),
{
    if handshake.next_state != 1 && handshake.next_state != 2 {
        return Ingress::InvalidState { next_state: handshake.next_state };
    }
    if handshake.next_state == 2 && !supported {
        return Ingress::UnsupportedProtocol { protocol_version: handshake.protocol_version };
    }
    if handshake.next_state == 1 {
        Ingress::Status { protocol_version: handshake.protocol_version }
    } else {
        Ingress::Login { protocol_version: handshake.protocol_version }
    }
}

/// Decides what to do with the first packet of a connection.
pub fn handle_java_connection(first_packet: &[u8]) -> (r: Result<Ingress, PacketError>)
    ensures
        match handshake_read(first_packet@) {
            Ok(h) => r == Ok::<Ingress, PacketError>(
                ingress_of(h, login_supported(h.protocol_version)),
            ),
            Err(e) => r == Err::<Ingress, PacketError>(e),
        },
{
    match parse_handshake(first_packet) {
        Ok(handshake) => Ok(
            decide_ingress(handshake, is_supported_login_protocol(handshake.protocol_version)),
        ),
        Err(e) => Err(e),
    }
}

/// The words with which a connection is refused.
pub open spec fn refusal_text(ingress: Ingress, backend_reachable: bool) -> Option<Seq<char>> {
    match ingress {
        Ingress::UnsupportedProtocol { .. } => Some(
            "Unsupported Java protocol. Supported: 766, 767, 774."@,
        ),
        Ingress::Login { .. } => if backend_reachable {
            None
        } else {
            Some("Backend unavailable. Please retry in a few seconds."@)
        },
        _ => None,
    }
}

pub fn refusal(ingress: Ingress, backend_reachable: bool) -> (r: Option<&'static str>)
    ensures
        match refusal_text(ingress, backend_reachable) {
            Some(text) => r matches Some(s) && s@ == text,
            None => r is None,
        },
{
    match ingress {
        Ingress::UnsupportedProtocol { .. } => Some(
            "Unsupported Java protocol. Supported: 766, 767, 774.",
        ),
        Ingress::Login { .. } => if backend_reachable {
            None
        } else {
            Some("Backend unavailable. Please retry in a few seconds.")
        },
        _ => None,
    }
}

/// The name that a Login Start packet gives, or a stand-in where the packet
/// cannot be decoded.
pub open spec fn joining_name(packet: Seq<u8>) -> Seq<char> {
    match login_start_read(packet) {
        Ok((name, _)) => name,
        Err(_) => "Literal_u"@,
    }
}

pub fn read_login_start(packet: &[u8]) -> (r: LoginStartInfo)
    ensures
        r.username@ == joining_name(packet@),
{
    let username = match parse_login_start_username(packet) {
        Ok(name) => name,
        Err(_) => "Literal_u".to_owned(),
    };
    LoginStartInfo { username }
}

/// What follows a handoff.
#[derive(Debug)]
pub enum AfterHandoff {
    /// The bridge stands for the player with this name.
    Bridge(String),
    /// The backend refused the player.
    Close,
    /// The login could not be decoded: the client is told so.
    DisconnectMalformed,
    /// The connection fails with the error.
    Fail,
}

/// Decides what follows an error of the given class and text.
pub fn after_handoff_error(class: ErrorClass, message: &str) -> (r: AfterHandoff)
    ensures
        decoder_exception(class, message@) ==> r is DisconnectMalformed,
        !decoder_exception(class, message@) ==> r is Fail,
{
    if is_decoder_exception(class, message) {
        AfterHandoff::DisconnectMalformed
    } else {
        AfterHandoff::Fail
    }
}

/// Decides what follows an outcome of the handoff; nothing while it goes on.
pub fn after_handoff(outcome: HandoffOutcome) -> (r: Option<AfterHandoff>)
    ensures
        match outcome {
            HandoffOutcome::Relaying => r is None,
            HandoffOutcome::Disconnected => r == Some(AfterHandoff::Close),
            HandoffOutcome::Established(name) => r == Some(AfterHandoff::Bridge(name)),
        },
{
    match outcome {
        HandoffOutcome::Relaying => None,
        HandoffOutcome::Disconnected => Some(AfterHandoff::Close),
        HandoffOutcome::Established(name) => Some(AfterHandoff::Bridge(name)),
    }
}

/// What a client is told whose login could not be decoded.
pub fn malformed_login_reason() -> (s: &'static str)
    ensures
        s@ == "DecoderException: malformed login packet"@,
{
    "DecoderException: malformed login packet"
}

/// A client is relayed to the backend only if it asks for its status, or for a
/// login with a supported version.
pub proof fn law_only_supported_logins_pass(packet: Seq<u8>)
    requires
        handshake_read(packet) is Ok,
    ensures
        ({
            let h = handshake_read(packet)->Ok_0;
            let ingress = ingress_of(h, login_supported(h.protocol_version));
            &&& ingress is Login <==> h.next_state == 2 && login_supported(h.protocol_version)
            &&& ingress is Status <==> h.next_state == 1
            &&& refusal_text(ingress, true) is Some <==> h.next_state == 2 && !login_supported(
                h.protocol_version,
            )
        }),
{
}

} // verus!
