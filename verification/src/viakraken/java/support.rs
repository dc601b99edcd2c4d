//! Protocol versions and the state of the two ends of a bridge.

use vstd::prelude::*;
use crate::error::{PacketError, PacketLabel};

verus! {

/// Whether clients of this version are told how errors are handled.
pub open spec fn strict_for(protocol_version: i32) -> bool {
    protocol_version == 774 || protocol_version >= 767
}

pub fn strict_error_handling(protocol_version: i32) -> (r: bool)
    ensures
        r == strict_for(protocol_version),
{
    protocol_version == 774 || protocol_version >= 767
}

/// The identifier of a packet, unless the protocol version has no such packet.
/// `id` is what the packet tables give for the version with number `protocol`:
/// a negative number where the packet is missing.
pub fn packet_id_for_version(id: i32, protocol: i32, label: PacketLabel) -> (r: Result<
    i32,
    PacketError,
>)
    ensures
        r == (if id < 0 {
            Err::<i32, PacketError>(PacketError::PacketUnavailable(label, protocol))
        } else {
            Ok::<i32, PacketError>(id)
        }),
{
    if id < 0 {
        return Err(PacketError::PacketUnavailable(label, protocol));
    }
    Ok(id)
}

pub open spec fn login_supported(protocol: i32) -> bool {
    protocol == 766 || protocol == 767 || protocol == 774 || protocol == 775
}

pub fn is_supported_login_protocol(protocol: i32) -> (r: bool)
    ensures
        r == login_supported(protocol),
{
    protocol == 766 || protocol == 767 || protocol == 774 || protocol == 775
}

/// The number to look a version up by. `known` says whether the version tables
/// have an entry for it.
pub fn minecraft_version_from_protocol(protocol: i32, known: bool) -> (r: Result<u32, PacketError>)
    ensures
        r == (if protocol < 0 {
            Err::<u32, PacketError>(PacketError::InvalidProtocol(protocol))
        } else if !known {
            Err::<u32, PacketError>(PacketError::UnsupportedProtocol(protocol))
        } else {
            Ok::<u32, PacketError>(protocol as u32)
        }),
{
    if protocol < 0 {
        return Err(PacketError::InvalidProtocol(protocol));
    }
    if !known {
        return Err(PacketError::UnsupportedProtocol(protocol));
    }
    Ok(protocol as u32)
}

/// Which end of a failed bridge looks closed, as a direction.
pub open spec fn bridge_direction(client_closed: bool, backend_closed: bool) -> Seq<char> {
    if client_closed && backend_closed {
        "both_sides"@
    } else if client_closed {
        "client_to_backend"@
    } else if backend_closed {
        "backend_to_client"@
    } else {
        "unknown"@
    }
}

pub fn infer_bridge_failure_direction(client_closed: bool, backend_closed: bool) -> (s:
    &'static str)
    ensures
        s@ == bridge_direction(client_closed, backend_closed),
{
    match (client_closed, backend_closed) {
        (true, false) => "client_to_backend",
        (false, true) => "backend_to_client",
        (true, true) => "both_sides",
        (false, false) => "unknown",
    }
}

/// Why looking at a stream failed.
#[derive(Clone, Copy, Debug, PartialEq, Eq, Structural)]
pub enum PeekFailure {
    ConnectionReset,
    BrokenPipe,
    NotConnected,
    UnexpectedEof,
    Other,
}

/// What a short look at a stream showed.
#[derive(Clone, Copy, Debug, PartialEq, Eq, Structural)]
pub enum Peek {
    Read(usize),
    Failed(PeekFailure),
    TimedOut,
}

pub open spec fn looks_closed(peek: Peek) -> bool {
    match peek {
        Peek::Read(n) => n == 0,
        Peek::Failed(failure) => failure != PeekFailure::Other,
        Peek::TimedOut => false,
    }
}

pub fn stream_looks_closed(peek: Peek) -> (r: bool)
    ensures
        r == looks_closed(peek),
{
    match peek {
        Peek::Read(n) => n == 0,
        Peek::Failed(failure) => match failure {
            PeekFailure::ConnectionReset
            | PeekFailure::BrokenPipe
            | PeekFailure::NotConnected
            | PeekFailure::UnexpectedEof => true,
            PeekFailure::Other => false,
        },
        Peek::TimedOut => false,
    }
}

} // verus!
