//! Wire messages and their mathematical model.
use vstd::prelude::*;
use crate::wire::types::{
    AuthMessageKind, CapabilityOffer, MessageClass, MessageType, WireId, WireRole, WireVersion,
};

verus! {

#[derive(Clone, PartialEq, Eq)]
pub enum WireMessage {
    Hello { capabilities: Vec<CapabilityOffer> },
    HelloAck { version: WireVersion, capabilities: Vec<CapabilityOffer> },
    Auth { kind: AuthMessageKind, body: Vec<u8> },
    SessionStart { session_id: WireId, transfer_id: WireId, role: WireRole },
    SessionAccept { session_id: WireId },
    ManifestOffer { session_id: WireId, file_count: u64, total_size: u64, body: Vec<u8> },
    ManifestAccept { session_id: WireId },
    ChunkRequest { session_id: WireId, file_id: WireId, index: u64, offset: u64, length: u64 },
    ChunkData {
        session_id: WireId,
        file_id: WireId,
        index: u64,
        offset: u64,
        length: u64,
        body: Vec<u8>,
    },
    ChunkAck { session_id: WireId, file_id: WireId, index: u64, offset: u64, length: u64 },
    Pause { session_id: WireId },
    Resume { session_id: WireId },
    Cancel { session_id: WireId, reason: u16 },
    Close { session_id: WireId, reason: u16 },
    Error { code: u16 },
}

/// What a message says, with identifiers, bodies and offers as sequences.
#[verifier::ext_equal]
pub enum MessageModel {
    Hello { capabilities: Seq<CapabilityOffer> },
    HelloAck { version: WireVersion, capabilities: Seq<CapabilityOffer> },
    Auth { kind: AuthMessageKind, body: Seq<u8> },
    SessionStart { session_id: Seq<u8>, transfer_id: Seq<u8>, role: WireRole },
    SessionAccept { session_id: Seq<u8> },
    ManifestOffer { session_id: Seq<u8>, file_count: u64, total_size: u64, body: Seq<u8> },
    ManifestAccept { session_id: Seq<u8> },
    ChunkRequest { session_id: Seq<u8>, file_id: Seq<u8>, index: u64, offset: u64, length: u64 },
    ChunkData {
        session_id: Seq<u8>,
        file_id: Seq<u8>,
        index: u64,
        offset: u64,
        length: u64,
        body: Seq<u8>,
    },
    ChunkAck { session_id: Seq<u8>, file_id: Seq<u8>, index: u64, offset: u64, length: u64 },
    Pause { session_id: Seq<u8> },
    Resume { session_id: Seq<u8> },
    Cancel { session_id: Seq<u8>, reason: u16 },
    Close { session_id: Seq<u8>, reason: u16 },
    Error { code: u16 },
}

impl MessageModel {
    pub open spec fn message_type(self) -> MessageType {
        match self {
            MessageModel::Hello { .. } => MessageType::Hello,
            MessageModel::HelloAck { .. } => MessageType::HelloAck,
            MessageModel::Auth { .. } => MessageType::Auth,
            MessageModel::SessionStart { .. } => MessageType::SessionStart,
            MessageModel::SessionAccept { .. } => MessageType::SessionAccept,
            MessageModel::ManifestOffer { .. } => MessageType::ManifestOffer,
            MessageModel::ManifestAccept { .. } => MessageType::ManifestAccept,
            MessageModel::ChunkRequest { .. } => MessageType::ChunkRequest,
            MessageModel::ChunkData { .. } => MessageType::ChunkData,
            MessageModel::ChunkAck { .. } => MessageType::ChunkAck,
            MessageModel::Pause { .. } => MessageType::Pause,
            MessageModel::Resume { .. } => MessageType::Resume,
            MessageModel::Cancel { .. } => MessageType::Cancel,
            MessageModel::Close { .. } => MessageType::Close,
            MessageModel::Error { .. } => MessageType::Error,
        }
    }

    /// Every identifier in the message has its sixteen bytes.
    pub open spec fn well_formed(self) -> bool {
        match self {
            MessageModel::Hello { .. } | MessageModel::HelloAck { .. } | MessageModel::Auth {
                ..
            } | MessageModel::Error { .. } => true,
            MessageModel::SessionStart { session_id, transfer_id, .. } => session_id.len() == 16
                && transfer_id.len() == 16,
            MessageModel::SessionAccept { session_id }
            | MessageModel::ManifestAccept { session_id }
            | MessageModel::Pause { session_id }
            | MessageModel::Resume { session_id }
            | MessageModel::ManifestOffer { session_id, .. }
            | MessageModel::Cancel { session_id, .. }
            | MessageModel::Close { session_id, .. } => session_id.len() == 16,
            MessageModel::ChunkRequest { session_id, file_id, .. }
            | MessageModel::ChunkData { session_id, file_id, .. }
            | MessageModel::ChunkAck { session_id, file_id, .. } => session_id.len() == 16
                && file_id.len() == 16,
        }
    }
}

impl View for WireMessage {
    type V = MessageModel;

    open spec fn view(&self) -> MessageModel {
        self.model()
    }
}

impl WireMessage {
    #[verifier::opaque]
    pub open spec fn model(self) -> MessageModel {
        match self {
            WireMessage::Hello { capabilities } => MessageModel::Hello {
                capabilities: capabilities@,
            },
            WireMessage::HelloAck { version, capabilities } => MessageModel::HelloAck {
                version,
                capabilities: capabilities@,
            },
            WireMessage::Auth { kind, body } => MessageModel::Auth { kind, body: body@ },
            WireMessage::SessionStart { session_id, transfer_id, role } => {
                MessageModel::SessionStart {
                    session_id: session_id@,
                    transfer_id: transfer_id@,
                    role,
                }
            },
            WireMessage::SessionAccept { session_id } => MessageModel::SessionAccept {
                session_id: session_id@,
            },
            WireMessage::ManifestOffer { session_id, file_count, total_size, body } => {
                MessageModel::ManifestOffer {
                    session_id: session_id@,
                    file_count,
                    total_size,
                    body: body@,
                }
            },
            WireMessage::ManifestAccept { session_id } => MessageModel::ManifestAccept {
                session_id: session_id@,
            },
            WireMessage::ChunkRequest { session_id, file_id, index, offset, length } => {
                MessageModel::ChunkRequest {
                    session_id: session_id@,
                    file_id: file_id@,
                    index,
                    offset,
                    length,
                }
            },
            WireMessage::ChunkData { session_id, file_id, index, offset, length, body } => {
                MessageModel::ChunkData {
                    session_id: session_id@,
                    file_id: file_id@,
                    index,
                    offset,
                    length,
                    body: body@,
                }
            },
            WireMessage::ChunkAck { session_id, file_id, index, offset, length } => {
                MessageModel::ChunkAck {
                    session_id: session_id@,
                    file_id: file_id@,
                    index,
                    offset,
                    length,
                }
            },
            WireMessage::Pause { session_id } => MessageModel::Pause { session_id: session_id@ },
            WireMessage::Resume { session_id } => MessageModel::Resume { session_id: session_id@ },
            WireMessage::Cancel { session_id, reason } => MessageModel::Cancel {
                session_id: session_id@,
                reason,
            },
            WireMessage::Close { session_id, reason } => MessageModel::Close {
                session_id: session_id@,
                reason,
            },
            WireMessage::Error { code } => MessageModel::Error { code },
        }
    }
}

impl WireMessage {
    pub fn message_type(&self) -> (message_type: MessageType)
        ensures
            message_type == self@.message_type(),
    {
        reveal(WireMessage::model);
        match self {
            Self::Hello { .. } => MessageType::Hello,
            Self::HelloAck { .. } => MessageType::HelloAck,
            Self::Auth { .. } => MessageType::Auth,
            Self::SessionStart { .. } => MessageType::SessionStart,
            Self::SessionAccept { .. } => MessageType::SessionAccept,
            Self::ManifestOffer { .. } => MessageType::ManifestOffer,
            Self::ManifestAccept { .. } => MessageType::ManifestAccept,
            Self::ChunkRequest { .. } => MessageType::ChunkRequest,
            Self::ChunkData { .. } => MessageType::ChunkData,
            Self::ChunkAck { .. } => MessageType::ChunkAck,
            Self::Pause { .. } => MessageType::Pause,
            Self::Resume { .. } => MessageType::Resume,
            Self::Cancel { .. } => MessageType::Cancel,
            Self::Close { .. } => MessageType::Close,
            Self::Error { .. } => MessageType::Error,
        }
    }

    pub fn class(&self) -> (class: MessageClass)
        ensures
            class == self@.message_type().class_of(),
    {
        self.message_type().class()
    }

    /// The model of every message is well formed.
    pub proof fn law_messages_are_well_formed(self)
        ensures
            self@.well_formed(),
    {
        broadcast use WireId::lemma_len;

        reveal(WireMessage::model);

    }
}

} // verus!
