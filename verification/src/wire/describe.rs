//! Descriptions of messages and frames for logs: sizes and kinds, never identifiers or bodies.
use vstd::prelude::*;
use crate::text::{decimal, push_decimal};
use crate::wire::frame::{FrameHeader, FrameModel, FramePayload, PayloadModel, WireFrame};
use crate::wire::message::{MessageModel, WireMessage};
use crate::wire::types::{AuthMessageKind, CapabilityOffer, WireId, WireRole, WireVersion};

verus! {

pub open spec fn version_text(version: WireVersion) -> Seq<char> {
    "WireVersion { major: "@ + decimal(version.major as nat) + ", minor: "@ + decimal(
        version.minor as nat,
    ) + " }"@
}

pub open spec fn auth_kind_text(kind: AuthMessageKind) -> Seq<char> {
    match kind {
        AuthMessageKind::Init => "Init"@,
        AuthMessageKind::Response => "Response"@,
        AuthMessageKind::Confirm => "Confirm"@,
    }
}

pub open spec fn role_text(role: WireRole) -> Seq<char> {
    match role {
        WireRole::Sender => "Sender"@,
        WireRole::Receiver => "Receiver"@,
    }
}

/// How a chunk message is described after its name.
pub open spec fn chunk_text(index: u64, offset: u64, length: u64) -> Seq<char> {
    " { session_id: WireId(..), file_id: WireId(..), index: "@ + decimal(index as nat)
        + ", offset: "@ + decimal(offset as nat) + ", length: "@ + decimal(length as nat)
}

pub open spec fn message_text(message: MessageModel) -> Seq<char> {
    match message {
        MessageModel::Hello { capabilities } => "WireMessage::Hello { capability_count: "@
            + decimal(capabilities.len()) + " }"@,
        MessageModel::HelloAck { version, capabilities } => "WireMessage::HelloAck { version: "@
            + version_text(version) + ", capability_count: "@ + decimal(capabilities.len())
            + " }"@,
        MessageModel::Auth { kind, body } => "WireMessage::Auth { kind: "@ + auth_kind_text(kind)
            + ", body_len: "@ + decimal(body.len()) + " }"@,
        MessageModel::SessionStart { role, .. } =>
            "WireMessage::SessionStart { session_id: WireId(..), transfer_id: WireId(..), role: "@
            + role_text(role) + " }"@,
        MessageModel::SessionAccept { .. } =>
            "WireMessage::SessionAccept { session_id: WireId(..) }"@,
        MessageModel::ManifestOffer { file_count, total_size, body, .. } =>
            "WireMessage::ManifestOffer { session_id: WireId(..), file_count: "@ + decimal(
            file_count as nat,
        ) + ", total_size: "@ + decimal(total_size as nat) + ", body_len: "@ + decimal(body.len())
            + " }"@,
        MessageModel::ManifestAccept { .. } =>
            "WireMessage::ManifestAccept { session_id: WireId(..) }"@,
        MessageModel::ChunkRequest { index, offset, length, .. } => "WireMessage::ChunkRequest"@
            + chunk_text(index, offset, length) + " }"@,
        MessageModel::ChunkData { index, offset, length, body, .. } => "WireMessage::ChunkData"@
            + chunk_text(index, offset, length) + ", body_len: "@ + decimal(body.len()) + " }"@,
        MessageModel::ChunkAck { index, offset, length, .. } => "WireMessage::ChunkAck"@
            + chunk_text(index, offset, length) + " }"@,
        MessageModel::Pause { .. } => "WireMessage::Pause { session_id: WireId(..) }"@,
        MessageModel::Resume { .. } => "WireMessage::Resume { session_id: WireId(..) }"@,
        MessageModel::Cancel { reason, .. } =>
            "WireMessage::Cancel { session_id: WireId(..), reason: "@ + decimal(reason as nat)
            + " }"@,
        MessageModel::Close { reason, .. } =>
            "WireMessage::Close { session_id: WireId(..), reason: "@ + decimal(reason as nat)
            + " }"@,
        MessageModel::Error { code } => "WireMessage::Error { code: "@ + decimal(code as nat)
            + " }"@,
    }
}

pub open spec fn header_text(header: FrameHeader) -> Seq<char> {
    "FrameHeader { version: "@ + version_text(header.version) + ", flags: "@ + decimal(
        header.flags as nat,
    ) + ", message_type: "@ + decimal(header.message_type as nat) + ", payload_len: "@ + decimal(
        header.payload_len as nat,
    ) + ", sequence: "@ + decimal(header.sequence as nat) + ", correlation_id: "@ + decimal(
        header.correlation_id as nat,
    ) + " }"@
}

pub open spec fn payload_text(payload: PayloadModel) -> Seq<char> {
    match payload {
        PayloadModel::Message(message) => message_text(message),
        PayloadModel::UnknownOptional { message_type, body } =>
            "FramePayload::UnknownOptional { message_type: "@ + decimal(message_type as nat)
            + ", body_len: "@ + decimal(body.len()) + " }"@,
    }
}

pub open spec fn frame_text(frame: FrameModel) -> Seq<char> {
    "WireFrame { header: "@ + header_text(frame.header) + ", payload: "@ + payload_text(
        frame.payload,
    ) + " }"@
}

pub fn text_of_version(version: WireVersion) -> (text: String)
    ensures
        text@ == version_text(version),
{
    let mut text = "WireVersion { major: ".to_owned();
    push_decimal(&mut text, version.major as u64);
    text.append(", minor: ");
    push_decimal(&mut text, version.minor as u64);
    text.append(" }");
    text
}

fn text_of_chunk(index: u64, offset: u64, length: u64) -> (text: String)
    ensures
        text@ == chunk_text(index, offset, length),
{
    let mut text = " { session_id: WireId(..), file_id: WireId(..), index: ".to_owned();
    push_decimal(&mut text, index);
    text.append(", offset: ");
    push_decimal(&mut text, offset);
    text.append(", length: ");
    push_decimal(&mut text, length);
    text
}

/// A name, one number and the closing brace.
fn text_with_number(name: &str, number: u64) -> (text: String)
    ensures
        text@ == name@ + decimal(number as nat) + " }"@,
{
    let mut text = name.to_owned();
    push_decimal(&mut text, number);
    text.append(" }");
    text
}

impl WireId {
    /// An identifier is never written out.
    pub fn description(&self) -> (text: &'static str)
        ensures
            text@ == "WireId(..)"@,
    {
        "WireId(..)"
    }
}

impl WireMessage {
    pub fn description(&self) -> (text: String)
        ensures
            text@ == message_text(self@),
    {
        reveal(WireMessage::model);
        match self {
            Self::Hello { capabilities } => text_with_number(
                "WireMessage::Hello { capability_count: ",
                capabilities.len() as u64,
            ),
            Self::HelloAck { version, capabilities } => {
                let mut text = "WireMessage::HelloAck { version: ".to_owned();
                text.append(&text_of_version(*version));
                text.append(", capability_count: ");
                push_decimal(&mut text, capabilities.len() as u64);
                text.append(" }");
                text
            },
            Self::Auth { kind, body } => {
                let mut text = "WireMessage::Auth { kind: ".to_owned();
                match kind {
                    AuthMessageKind::Init => text.append("Init"),
                    AuthMessageKind::Response => text.append("Response"),
                    AuthMessageKind::Confirm => text.append("Confirm"),
                }
                text.append(", body_len: ");
                push_decimal(&mut text, body.len() as u64);
                text.append(" }");
                text
            },
            Self::SessionStart { role, .. } => {
                let mut text =
                    "WireMessage::SessionStart { session_id: WireId(..), transfer_id: WireId(..), role: ".to_owned();
                match role {
                    WireRole::Sender => text.append("Sender"),
                    WireRole::Receiver => text.append("Receiver"),
                }
                text.append(" }");
                text
            },
            Self::SessionAccept { .. } => {
                "WireMessage::SessionAccept { session_id: WireId(..) }".to_owned()
            },
            Self::ManifestAccept { .. } => {
                "WireMessage::ManifestAccept { session_id: WireId(..) }".to_owned()
            },
            Self::Pause { .. } => "WireMessage::Pause { session_id: WireId(..) }".to_owned(),
            Self::Resume { .. } => "WireMessage::Resume { session_id: WireId(..) }".to_owned(),
            Self::ManifestOffer { file_count, total_size, body, .. } => {
                let mut text =
                    "WireMessage::ManifestOffer { session_id: WireId(..), file_count: ".to_owned();
                push_decimal(&mut text, *file_count);
                text.append(", total_size: ");
                push_decimal(&mut text, *total_size);
                text.append(", body_len: ");
                push_decimal(&mut text, body.len() as u64);
                text.append(" }");
                text
            },
            Self::ChunkRequest { index, offset, length, .. } => {
                let mut text = "WireMessage::ChunkRequest".to_owned();
                text.append(&text_of_chunk(*index, *offset, *length));
                text.append(" }");
                text
            },
            Self::ChunkAck { index, offset, length, .. } => {
                let mut text = "WireMessage::ChunkAck".to_owned();
                text.append(&text_of_chunk(*index, *offset, *length));
                text.append(" }");
                text
            },
            Self::ChunkData { index, offset, length, body, .. } => {
                let mut text = "WireMessage::ChunkData".to_owned();
                text.append(&text_of_chunk(*index, *offset, *length));
                text.append(", body_len: ");
                push_decimal(&mut text, body.len() as u64);
                text.append(" }");
                text
            },
            Self::Cancel { reason, .. } => text_with_number(
                "WireMessage::Cancel { session_id: WireId(..), reason: ",
                *reason as u64,
            ),
            Self::Close { reason, .. } => text_with_number(
                "WireMessage::Close { session_id: WireId(..), reason: ",
                *reason as u64,
            ),
            Self::Error { code } => text_with_number(
                "WireMessage::Error { code: ",
                *code as u64,
            ),
        }
    }
}

impl FrameHeader {
    pub fn description(&self) -> (text: String)
        ensures
            text@ == header_text(*self),
    {
        let mut text = "FrameHeader { version: ".to_owned();
        text.append(&text_of_version(self.version));
        text.append(", flags: ");
        push_decimal(&mut text, self.flags as u64);
        text.append(", message_type: ");
        push_decimal(&mut text, self.message_type as u64);
        text.append(", payload_len: ");
        push_decimal(&mut text, self.payload_len as u64);
        text.append(", sequence: ");
        push_decimal(&mut text, self.sequence);
        text.append(", correlation_id: ");
        push_decimal(&mut text, self.correlation_id);
        text.append(" }");
        text
    }
}

impl FramePayload {
    pub fn description(&self) -> (text: String)
        ensures
            text@ == payload_text(self@),
    {
        match self {
            Self::Message(message) => message.description(),
            Self::UnknownOptional { message_type, body } => {
                let mut text = "FramePayload::UnknownOptional { message_type: ".to_owned();
                push_decimal(&mut text, *message_type as u64);
                text.append(", body_len: ");
                push_decimal(&mut text, body.len() as u64);
                text.append(" }");
                text
            },
        }
    }
}

impl WireFrame {
    pub fn description(&self) -> (text: String)
        ensures
            text@ == frame_text(self@),
    {
        let mut text = "WireFrame { header: ".to_owned();
        text.append(&self.header.description());
        text.append(", payload: ");
        text.append(&self.payload.description());
        text.append(" }");
        text
    }
}

/// A message of the same shape with every identifier, offer and body wiped.
pub open spec fn wiped(message: MessageModel) -> MessageModel {
    let id = Seq::new(16, |i: int| 0u8);
    match message {
        MessageModel::Hello { capabilities } => MessageModel::Hello {
            capabilities: Seq::new(
                capabilities.len(),
                |i: int| CapabilityOffer { id: 0, required: false },
            ),
        },
        MessageModel::HelloAck { version, capabilities } => MessageModel::HelloAck {
            version,
            capabilities: Seq::new(
                capabilities.len(),
                |i: int| CapabilityOffer { id: 0, required: false },
            ),
        },
        MessageModel::Auth { kind, body } => MessageModel::Auth {
            kind,
            body: Seq::new(body.len(), |i: int| 0u8),
        },
        MessageModel::SessionStart { role, .. } => MessageModel::SessionStart {
            session_id: id,
            transfer_id: id,
            role,
        },
        MessageModel::SessionAccept { .. } => MessageModel::SessionAccept { session_id: id },
        MessageModel::ManifestOffer { file_count, total_size, body, .. } => {
            MessageModel::ManifestOffer {
                session_id: id,
                file_count,
                total_size,
                body: Seq::new(body.len(), |i: int| 0u8),
            }
        },
        MessageModel::ManifestAccept { .. } => MessageModel::ManifestAccept { session_id: id },
        MessageModel::ChunkRequest { index, offset, length, .. } => MessageModel::ChunkRequest {
            session_id: id,
            file_id: id,
            index,
            offset,
            length,
        },
        MessageModel::ChunkData { index, offset, length, body, .. } => MessageModel::ChunkData {
            session_id: id,
            file_id: id,
            index,
            offset,
            length,
            body: Seq::new(body.len(), |i: int| 0u8),
        },
        MessageModel::ChunkAck { index, offset, length, .. } => MessageModel::ChunkAck {
            session_id: id,
            file_id: id,
            index,
            offset,
            length,
        },
        MessageModel::Pause { .. } => MessageModel::Pause { session_id: id },
        MessageModel::Resume { .. } => MessageModel::Resume { session_id: id },
        MessageModel::Cancel { reason, .. } => MessageModel::Cancel { session_id: id, reason },
        MessageModel::Close { reason, .. } => MessageModel::Close { session_id: id, reason },
        MessageModel::Error { code } => MessageModel::Error { code },
    }
}

/// The description of a message tells nothing of its identifiers, offers and bodies but the length
/// of a body and the number of offers: with all of them wiped it reads the same.
pub proof fn law_description_hides_content(message: MessageModel)
    ensures
        message_text(message) == message_text(wiped(message)),
{
}

} // verus!
