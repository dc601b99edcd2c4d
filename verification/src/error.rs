//! Errors of the packet codecs and of the login protocol.

use vstd::prelude::*;
use crate::number::{decimal, hex_two, push_decimal, push_hex_two, push_signed_decimal, signed_decimal};
use crate::text::{chars_of, has_substring};
use vstd::string::StringExecFns;

verus! {

/// The classes of errors that callers tell apart.
#[derive(Clone, Copy, Debug, PartialEq, Eq, Structural)]
pub enum ErrorClass {
    UnexpectedEof,
    InvalidData,
    InvalidInput,
    Other,
}

/// The packets whose identifiers the login handoff looks up.
#[derive(Clone, Copy, Debug, PartialEq, Eq, Structural)]
pub enum PacketLabel {
    LoginSuccess,
    LoginDisconnect,
    LoginAck,
    ConfigFinish,
    ConfigFinishClientbound,
    ConfigFinishServerbound,
}

#[derive(Clone, Copy, Debug, PartialEq, Eq, Structural)]
pub enum PacketError {
    VarIntEof,
    VarIntTooBig,
    NegativeStringLength,
    StringTruncated,
    InvalidUtf8,
    BoolEof,
    InvalidBool(u8),
    StringTooLong,
    InvalidPacketLength,
    PayloadTooLarge,
    NotHandshake,
    MissingHandshakePort,
    InvalidNextState,
    NotStatusRequest,
    NotLoginStart(i32),
    NotLoginSuccess(i32),
    MissingUuid,
    NegativePropertiesCount,
    TrailingBytes(usize),
    InvalidProtocol(i32),
    UnsupportedProtocol(i32),
    PacketUnavailable(PacketLabel, i32),
    PacketIdUnavailable(i32),
}

pub open spec fn label_text(label: PacketLabel) -> Seq<char> {
    match label {
        PacketLabel::LoginSuccess => "login-success"@,
        PacketLabel::LoginDisconnect => "login-disconnect"@,
        PacketLabel::LoginAck => "login-ack"@,
        PacketLabel::ConfigFinish => "config-finish"@,
        PacketLabel::ConfigFinishClientbound => "config-finish-clientbound"@,
        PacketLabel::ConfigFinishServerbound => "config-finish-serverbound"@,
    }
}

pub fn packet_label_text(label: PacketLabel) -> (s: &'static str)
    ensures
        s@ == label_text(label),
{
    match label {
        PacketLabel::LoginSuccess => "login-success",
        PacketLabel::LoginDisconnect => "login-disconnect",
        PacketLabel::LoginAck => "login-ack",
        PacketLabel::ConfigFinish => "config-finish",
        PacketLabel::ConfigFinishClientbound => "config-finish-clientbound",
        PacketLabel::ConfigFinishServerbound => "config-finish-serverbound",
    }
}

impl PacketError {
    pub open spec fn spec_class(self) -> ErrorClass {
        match self {
            PacketError::VarIntEof
            | PacketError::StringTruncated
            | PacketError::BoolEof
            | PacketError::MissingHandshakePort
            | PacketError::MissingUuid => ErrorClass::UnexpectedEof,
            PacketError::StringTooLong | PacketError::PayloadTooLarge => ErrorClass::InvalidInput,
            _ => ErrorClass::InvalidData,
        }
    }

    pub fn class(&self) -> (c: ErrorClass)
        ensures
            c == self.spec_class(),
    {
        match self {
            PacketError::VarIntEof
            | PacketError::StringTruncated
            | PacketError::BoolEof
            | PacketError::MissingHandshakePort
            | PacketError::MissingUuid => ErrorClass::UnexpectedEof,
            PacketError::StringTooLong | PacketError::PayloadTooLarge => ErrorClass::InvalidInput,
            _ => ErrorClass::InvalidData,
        }
    }

    /// The text that describes the error.
    pub open spec fn spec_message(self) -> Seq<char> {
        match self {
            PacketError::VarIntEof => "unexpected eof while reading varint"@,
            PacketError::VarIntTooBig => "varint too big"@,
            PacketError::NegativeStringLength => "negative string length"@,
            PacketError::StringTruncated => "not enough bytes for string"@,
            PacketError::InvalidUtf8 => "invalid utf8 in string"@,
            PacketError::BoolEof => "unexpected eof while reading bool"@,
            PacketError::InvalidBool(b) => "invalid boolean byte 0x"@ + crate::number::hex_two(
                b as nat,
            ),
            PacketError::StringTooLong => "string too long"@,
            PacketError::InvalidPacketLength => "invalid packet length"@,
            PacketError::PayloadTooLarge => "payload too large"@,
            PacketError::NotHandshake => "first packet was not handshake"@,
            PacketError::MissingHandshakePort => "missing handshake port"@,
            PacketError::InvalidNextState => "invalid handshake next state"@,
            PacketError::NotStatusRequest => "expected status request packet id 0"@,
            PacketError::NotLoginStart(id) => "expected login start packet id 0x00, got 0x"@
                + crate::number::hex_two((id as u32) as nat),
            PacketError::NotLoginSuccess(id) => "expected login success packet id 0x02, got 0x"@
                + crate::number::hex_two((id as u32) as nat),
            PacketError::MissingUuid => "login success missing 16-byte UUID"@,
            PacketError::NegativePropertiesCount =>
                "login success properties count cannot be negative"@,
            PacketError::TrailingBytes(n) => "login success has "@ + crate::number::decimal(
                n as nat,
            ) + " trailing bytes"@,
            PacketError::InvalidProtocol(p) => "invalid protocol "@ + crate::number::signed_decimal(
                p as int,
            ),
            PacketError::UnsupportedProtocol(p) => "unsupported protocol "@
                + crate::number::signed_decimal(p as int),
            PacketError::PacketUnavailable(label, p) => "packet "@ + label_text(label)
                + " unavailable for protocol "@ + crate::number::signed_decimal(p as int),
            PacketError::PacketIdUnavailable(p) => "packet id unavailable for version "@
                + crate::number::signed_decimal(p as int),
        }
    }

    pub fn message(&self) -> (s: String)
        ensures
            s@ == self.spec_message(),
    {
        match *self {
            PacketError::VarIntEof => "unexpected eof while reading varint".to_owned(),
            PacketError::VarIntTooBig => "varint too big".to_owned(),
            PacketError::NegativeStringLength => "negative string length".to_owned(),
            PacketError::StringTruncated => "not enough bytes for string".to_owned(),
            PacketError::InvalidUtf8 => "invalid utf8 in string".to_owned(),
            PacketError::BoolEof => "unexpected eof while reading bool".to_owned(),
            PacketError::InvalidBool(b) => {
                let mut s = "invalid boolean byte 0x".to_owned();
                push_hex_two(&mut s, b as u32);
                s
            },
            PacketError::StringTooLong => "string too long".to_owned(),
            PacketError::InvalidPacketLength => "invalid packet length".to_owned(),
            PacketError::PayloadTooLarge => "payload too large".to_owned(),
            PacketError::NotHandshake => "first packet was not handshake".to_owned(),
            PacketError::MissingHandshakePort => "missing handshake port".to_owned(),
            PacketError::InvalidNextState => "invalid handshake next state".to_owned(),
            PacketError::NotStatusRequest => "expected status request packet id 0".to_owned(),
            PacketError::NotLoginStart(id) => {
                let mut s = "expected login start packet id 0x00, got 0x".to_owned();
                push_hex_two(&mut s, id as u32);
                s
            },
            PacketError::NotLoginSuccess(id) => {
                let mut s = "expected login success packet id 0x02, got 0x".to_owned();
                push_hex_two(&mut s, id as u32);
                s
            },
            PacketError::MissingUuid => "login success missing 16-byte UUID".to_owned(),
            PacketError::NegativePropertiesCount =>
                "login success properties count cannot be negative".to_owned(),
            PacketError::TrailingBytes(n) => {
                let mut s = "login success has ".to_owned();
                push_decimal(&mut s, n as u64);
                s.append(" trailing bytes");
                s
            },
            PacketError::InvalidProtocol(p) => {
                let mut s = "invalid protocol ".to_owned();
                push_signed_decimal(&mut s, p as i64);
                s
            },
            PacketError::UnsupportedProtocol(p) => {
                let mut s = "unsupported protocol ".to_owned();
                push_signed_decimal(&mut s, p as i64);
                s
            },
            PacketError::PacketUnavailable(label, p) => {
                let mut s = "packet ".to_owned();
                s.append(packet_label_text(label));
                s.append(" unavailable for protocol ");
                push_signed_decimal(&mut s, p as i64);
                s
            },
            PacketError::PacketIdUnavailable(p) => {
                let mut s = "packet id unavailable for version ".to_owned();
                push_signed_decimal(&mut s, p as i64);
                s
            },
        }
    }
}

/// Whether an error of this class and with this text means that the peer sent
/// something that cannot be decoded.
pub open spec fn decoder_exception(class: ErrorClass, message: Seq<char>) -> bool {
    ||| class == ErrorClass::InvalidData
    ||| class == ErrorClass::UnexpectedEof
    ||| crate::text::contains_text(message, "DecoderException"@)
}

pub fn is_decoder_exception(class: ErrorClass, message: &str) -> (r: bool)
    ensures
        r == decoder_exception(class, message@),
{
    class == ErrorClass::InvalidData || class == ErrorClass::UnexpectedEof || has_substring(
        chars_of(message).as_slice(),
        "DecoderException",
    )
}

/// What the errors say to those who read them.
pub proof fn law_words_of_the_errors(label: PacketLabel, b: u8, n: usize, p: i32)
    ensures
        PacketError::VarIntEof.spec_message() == "unexpected eof while reading varint"@,
        PacketError::VarIntTooBig.spec_message() == "varint too big"@,
        PacketError::NegativeStringLength.spec_message() == "negative string length"@,
        PacketError::StringTruncated.spec_message() == "not enough bytes for string"@,
        PacketError::InvalidUtf8.spec_message() == "invalid utf8 in string"@,
        PacketError::BoolEof.spec_message() == "unexpected eof while reading bool"@,
        PacketError::InvalidBool(b).spec_message() == "invalid boolean byte 0x"@ + hex_two(
            b as nat,
        ),
        PacketError::StringTooLong.spec_message() == "string too long"@,
        PacketError::InvalidPacketLength.spec_message() == "invalid packet length"@,
        PacketError::PayloadTooLarge.spec_message() == "payload too large"@,
        PacketError::NotHandshake.spec_message() == "first packet was not handshake"@,
        PacketError::MissingHandshakePort.spec_message() == "missing handshake port"@,
        PacketError::InvalidNextState.spec_message() == "invalid handshake next state"@,
        PacketError::NotStatusRequest.spec_message() == "expected status request packet id 0"@,
        PacketError::MissingUuid.spec_message() == "login success missing 16-byte UUID"@,
        PacketError::TrailingBytes(n).spec_message() == "login success has "@ + decimal(n as nat)
            + " trailing bytes"@,
        PacketError::InvalidProtocol(p).spec_message() == "invalid protocol "@ + signed_decimal(
            p as int,
        ),
        PacketError::UnsupportedProtocol(p).spec_message() == "unsupported protocol "@
            + signed_decimal(p as int),
        PacketError::PacketUnavailable(label, p).spec_message() == "packet "@ + label_text(label)
            + " unavailable for protocol "@ + signed_decimal(p as int),
        label_text(PacketLabel::LoginSuccess) == "login-success"@,
        label_text(PacketLabel::LoginDisconnect) == "login-disconnect"@,
        label_text(PacketLabel::LoginAck) == "login-ack"@,
        label_text(PacketLabel::ConfigFinishClientbound) == "config-finish-clientbound"@,
        label_text(PacketLabel::ConfigFinishServerbound) == "config-finish-serverbound"@,
{
}

} // verus!
