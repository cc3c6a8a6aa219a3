//! The faults of the wire protocol in words.
use vstd::prelude::*;
use crate::ident::hex_char;
use crate::text::{decimal, push_decimal};
use crate::wire::describe::{text_of_version, version_text};
use crate::wire::types::{MessageType, ProtocolPhase, WireError};

verus! {

impl MessageType {
    pub open spec fn label(self) -> Seq<char> {
        match self {
            MessageType::Hello => "Hello"@,
            MessageType::HelloAck => "HelloAck"@,
            MessageType::Auth => "Auth"@,
            MessageType::SessionStart => "SessionStart"@,
            MessageType::SessionAccept => "SessionAccept"@,
            MessageType::ManifestOffer => "ManifestOffer"@,
            MessageType::ManifestAccept => "ManifestAccept"@,
            MessageType::ChunkRequest => "ChunkRequest"@,
            MessageType::ChunkData => "ChunkData"@,
            MessageType::ChunkAck => "ChunkAck"@,
            MessageType::Pause => "Pause"@,
            MessageType::Resume => "Resume"@,
            MessageType::Cancel => "Cancel"@,
            MessageType::Close => "Close"@,
            MessageType::Error => "Error"@,
        }
    }

    pub fn name(self) -> (name: &'static str)
        ensures
            name@ == self.label(),
    {
        match self {
            Self::Hello => "Hello",
            Self::HelloAck => "HelloAck",
            Self::Auth => "Auth",
            Self::SessionStart => "SessionStart",
            Self::SessionAccept => "SessionAccept",
            Self::ManifestOffer => "ManifestOffer",
            Self::ManifestAccept => "ManifestAccept",
            Self::ChunkRequest => "ChunkRequest",
            Self::ChunkData => "ChunkData",
            Self::ChunkAck => "ChunkAck",
            Self::Pause => "Pause",
            Self::Resume => "Resume",
            Self::Cancel => "Cancel",
            Self::Close => "Close",
            Self::Error => "Error",
        }
    }
}

impl ProtocolPhase {
    pub open spec fn label(self) -> Seq<char> {
        match self {
            ProtocolPhase::PreAuthentication => "PreAuthentication"@,
            ProtocolPhase::Negotiating => "Negotiating"@,
            ProtocolPhase::Authenticating => "Authenticating"@,
            ProtocolPhase::Authenticated => "Authenticated"@,
            ProtocolPhase::Transferring => "Transferring"@,
            ProtocolPhase::Closing => "Closing"@,
            ProtocolPhase::Closed => "Closed"@,
        }
    }

    pub fn name(self) -> (name: &'static str)
        ensures
            name@ == self.label(),
    {
        match self {
            Self::PreAuthentication => "PreAuthentication",
            Self::Negotiating => "Negotiating",
            Self::Authenticating => "Authenticating",
            Self::Authenticated => "Authenticated",
            Self::Transferring => "Transferring",
            Self::Closing => "Closing",
            Self::Closed => "Closed",
        }
    }
}

/// A byte as two hexadecimal digits.
pub open spec fn hex_byte(byte: u8) -> Seq<char> {
    "0x"@ + seq![hex_char(byte as nat / 16), hex_char(byte as nat % 16)]
}

fn hex_digit(digit: u8) -> (c: char)
    requires
        digit < 16,
    ensures
        c == hex_char(digit as nat),
{
    match digit {
        0 => '0',
        1 => '1',
        2 => '2',
        3 => '3',
        4 => '4',
        5 => '5',
        6 => '6',
        7 => '7',
        8 => '8',
        9 => '9',
        10 => 'a',
        11 => 'b',
        12 => 'c',
        13 => 'd',
        14 => 'e',
        _ => 'f',
    }
}

fn push_hex_byte(text: &mut String, byte: u8)
    ensures
        final(text)@ == old(text)@ + hex_byte(byte),
{
    text.append("0x");
    text.push(hex_digit(byte / 16));
    text.push(hex_digit(byte % 16));
    assert(text@ =~= old(text)@ + hex_byte(byte));
}

impl WireError {
    pub open spec fn text(self) -> Seq<char> {
        match self {
            WireError::InvalidLimits => "wire limits are invalid"@,
            WireError::Incomplete { needed } =>
                "wire frame is incomplete; need "@ + decimal(needed as nat) + " more bytes"@,
            WireError::Truncated => "wire stream ended before frame completed"@,
            WireError::InvalidMagic => "wire frame magic is invalid"@,
            WireError::UnsupportedVersion { found, supported_major } =>
                "wire version "@ + version_text(found) + " is unsupported; major version "@
                + decimal(supported_major as nat) + " is required"@,
            WireError::ReservedFlags { flags } =>
                "wire frame has reserved flags "@ + hex_byte(flags),
            WireError::FrameTooLarge { length, max } =>
                "wire frame payload length "@ + decimal(length as nat) + " exceeds limit "@
                + decimal(max as nat),
            WireError::BufferTooLarge { max } =>
                "wire decoder buffer exceeds limit "@ + decimal(max as nat),
            WireError::UnknownMandatoryMessage { message_type } =>
                "unknown mandatory wire message type "@ + hex_byte(message_type),
            WireError::KnownMessageMarkedOptional { message_type } =>
                "known wire message type "@ + message_type.label()
                    + " may not be marked optional"@,
            WireError::MalformedMessage { message_type, reason } =>
                "wire message "@ + message_type.label() + " is malformed: "@ + reason@,
            WireError::FieldTooLarge { field, length, max } =>
                "wire message field "@ + field@ + " length "@ + decimal(length as nat)
                + " exceeds limit "@ + decimal(max as nat),
            WireError::UnsupportedCapability { id } =>
                "wire capability "@ + decimal(id as nat) + " is required but unsupported"@,
            WireError::MissingRequiredCapability { id } =>
                "wire capability "@ + decimal(id as nat) + " was required but not acknowledged"@,
            WireError::DuplicateCapability { id } =>
                "wire capability "@ + decimal(id as nat) + " was offered more than once"@,
            WireError::TrailingBytes => "wire message contains trailing bytes"@,
            WireError::InvalidState { phase, message_type } =>
                "wire message "@ + message_type.label() + " is invalid in protocol phase "@
                + phase.label(),
            WireError::DuplicateNegotiation => "wire negotiation message was duplicated"@,
            WireError::InvalidSequence { sequence, previous } =>
                "wire frame sequence "@ + decimal(sequence as nat)
                + " is not after previous sequence "@ + decimal(previous as nat),
            WireError::InvalidSession =>
                "wire session identifier does not match negotiated session"@,
            WireError::Io { kind } => "wire I/O failed with "@ + kind.label(),
        }
    }

    pub fn message(&self) -> (text: String)
        ensures
            text@ == self.text(),
    {
        match self {
            Self::InvalidLimits => "wire limits are invalid".to_owned(),
            Self::Incomplete { needed } => {
                let mut text = "wire frame is incomplete; need ".to_owned();
                push_decimal(&mut text, *needed as u64);
                text.append(" more bytes");
                text
            },
            Self::Truncated => "wire stream ended before frame completed".to_owned(),
            Self::InvalidMagic => "wire frame magic is invalid".to_owned(),
            Self::UnsupportedVersion { found, supported_major } => {
                let mut text = "wire version ".to_owned();
                text.append(&text_of_version(*found));
                text.append(" is unsupported; major version ");
                push_decimal(&mut text, *supported_major as u64);
                text.append(" is required");
                text
            },
            Self::ReservedFlags { flags } => {
                let mut text = "wire frame has reserved flags ".to_owned();
                push_hex_byte(&mut text, *flags);
                text
            },
            Self::FrameTooLarge { length, max } => {
                let mut text = "wire frame payload length ".to_owned();
                push_decimal(&mut text, *length as u64);
                text.append(" exceeds limit ");
                push_decimal(&mut text, *max as u64);
                text
            },
            Self::BufferTooLarge { max } => {
                let mut text = "wire decoder buffer exceeds limit ".to_owned();
                push_decimal(&mut text, *max as u64);
                text
            },
            Self::UnknownMandatoryMessage { message_type } => {
                let mut text = "unknown mandatory wire message type ".to_owned();
                push_hex_byte(&mut text, *message_type);
                text
            },
            Self::KnownMessageMarkedOptional { message_type } => {
                let mut text = "known wire message type ".to_owned();
                text.append(message_type.name());
                text.append(" may not be marked optional");
                text
            },
            Self::MalformedMessage { message_type, reason } => {
                let mut text = "wire message ".to_owned();
                text.append(message_type.name());
                text.append(" is malformed: ");
                text.append(reason);
                text
            },
            Self::FieldTooLarge { field, length, max } => {
                let mut text = "wire message field ".to_owned();
                text.append(field);
                text.append(" length ");
                push_decimal(&mut text, *length as u64);
                text.append(" exceeds limit ");
                push_decimal(&mut text, *max as u64);
                text
            },
            Self::UnsupportedCapability { id } => {
                let mut text = "wire capability ".to_owned();
                push_decimal(&mut text, *id as u64);
                text.append(" is required but unsupported");
                text
            },
            Self::MissingRequiredCapability { id } => {
                let mut text = "wire capability ".to_owned();
                push_decimal(&mut text, *id as u64);
                text.append(" was required but not acknowledged");
                text
            },
            Self::DuplicateCapability { id } => {
                let mut text = "wire capability ".to_owned();
                push_decimal(&mut text, *id as u64);
                text.append(" was offered more than once");
                text
            },
            Self::TrailingBytes => "wire message contains trailing bytes".to_owned(),
            Self::InvalidState { phase, message_type } => {
                let mut text = "wire message ".to_owned();
                text.append(message_type.name());
                text.append(" is invalid in protocol phase ");
                text.append(phase.name());
                text
            },
            Self::DuplicateNegotiation => "wire negotiation message was duplicated".to_owned(),
            Self::InvalidSequence { sequence, previous } => {
                let mut text = "wire frame sequence ".to_owned();
                push_decimal(&mut text, *sequence as u64);
                text.append(" is not after previous sequence ");
                push_decimal(&mut text, *previous as u64);
                text
            },
            Self::InvalidSession => {
                "wire session identifier does not match negotiated session".to_owned()
            },
            Self::Io { kind } => {
                let mut text = "wire I/O failed with ".to_owned();
                text.append(kind.name());
                text
            },
        }
    }
}

} // verus!
