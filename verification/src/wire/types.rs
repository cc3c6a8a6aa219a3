//! Versions, limits, errors and the small enumerations of the wire protocol.
use vstd::prelude::*;
use crate::io_kind::IoErrorKind;

verus! {

/// The four bytes "DRFT" that open every frame.
pub const WIRE_MAGIC: [u8; 4] = [0x44u8, 0x52u8, 0x46u8, 0x54u8];

pub const WIRE_HEADER_LEN: usize = 28;

pub const OPTIONAL_MESSAGE_BIT: u8 = 0x80;

const DEFAULT_MAX_FRAME_PAYLOAD: usize = 4_194_304;

const DEFAULT_MAX_OPAQUE_PAYLOAD: usize = 4_194_304;

const DEFAULT_MAX_CAPABILITIES: usize = 64;

const DEFAULT_MAX_BUFFERED_BYTES: usize = 8_388_608;

#[derive(Debug, Clone, Copy, PartialEq, Eq, PartialOrd, Ord, Structural)]
pub struct WireVersion {
    pub major: u8,
    pub minor: u8,
}

/// The version that this implementation speaks.
pub fn wire_version() -> (version: WireVersion)
    ensures
        version == (WireVersion { major: 1, minor: 0 }),
{
    WireVersion { major: 1, minor: 0 }
}

impl WireVersion {
    pub fn new(major: u8, minor: u8) -> (version: Self)
        ensures
            version == (WireVersion { major, minor }),
    {
        Self { major, minor }
    }

    pub fn same_major(self, other: Self) -> (same: bool)
        ensures
            same == (self.major == other.major),
    {
        self.major == other.major
    }

    /// The version both sides speak: the common major version with the older minor version.
    pub open spec fn negotiated(self, peer: Self) -> Result<Self, WireError> {
        if self.major != peer.major {
            Err(WireError::UnsupportedVersion { found: peer, supported_major: self.major })
        } else {
            Ok(
                WireVersion {
                    major: self.major,
                    minor: if self.minor <= peer.minor {
                        self.minor
                    } else {
                        peer.minor
                    },
                },
            )
        }
    }

    pub fn negotiate(self, peer: Self) -> (result: Result<Self, WireError>)
        ensures
            result == self.negotiated(peer),
    {
        if !self.same_major(peer) {
            return Err(
                WireError::UnsupportedVersion { found: peer, supported_major: self.major },
            );
        }
        let minor: u8 = if self.minor <= peer.minor {
            self.minor
        } else {
            peer.minor
        };
        Ok(Self::new(self.major, minor))
    }
}

#[derive(Debug, Clone, Copy, PartialEq, Eq, Structural)]
pub struct WireLimits {
    pub max_frame_payload: usize,
    pub max_opaque_payload: usize,
    pub max_capabilities: usize,
    pub max_buffered_bytes: usize,
}

impl Default for WireLimits {
    fn default() -> (limits: Self)
        ensures
            limits == (WireLimits {
                max_frame_payload: 4_194_304,
                max_opaque_payload: 4_194_304,
                max_capabilities: 64,
                max_buffered_bytes: 8_388_608,
            }),
    {
        Self {
            max_frame_payload: DEFAULT_MAX_FRAME_PAYLOAD,
            max_opaque_payload: DEFAULT_MAX_OPAQUE_PAYLOAD,
            max_capabilities: DEFAULT_MAX_CAPABILITIES,
            max_buffered_bytes: DEFAULT_MAX_BUFFERED_BYTES,
        }
    }
}

impl WireLimits {
    pub fn new(
        max_frame_payload: usize,
        max_opaque_payload: usize,
        max_capabilities: usize,
        max_buffered_bytes: usize,
    ) -> (limits: Self)
        ensures
            limits == (WireLimits {
                max_frame_payload,
                max_opaque_payload,
                max_capabilities,
                max_buffered_bytes,
            }),
    {
        Self { max_frame_payload, max_opaque_payload, max_capabilities, max_buffered_bytes }
    }

    /// A payload length fits the header's four bytes, an opaque field fits a payload, and one
    /// whole frame (as far as its length can be told) fits the decoder's buffer.
    pub open spec fn valid(self) -> bool {
        &&& self.max_frame_payload <= u32::MAX
        &&& self.max_opaque_payload <= self.max_frame_payload
        &&& (WIRE_HEADER_LEN + self.max_frame_payload <= self.max_buffered_bytes
            || self.max_buffered_bytes == usize::MAX)
    }

    pub fn validate(self) -> (result: Result<(), WireError>)
        ensures
            result == (if self.valid() {
                Ok::<(), WireError>(())
            } else {
                Err(WireError::InvalidLimits)
            }),
    {
        let minimum_buffer: usize = match WIRE_HEADER_LEN.checked_add(self.max_frame_payload) {
            Some(sum) => sum,
            None => usize::MAX,
        };
        if self.max_frame_payload > u32::MAX as usize || self.max_opaque_payload
            > self.max_frame_payload || self.max_buffered_bytes < minimum_buffer {
            return Err(WireError::InvalidLimits);
        }
        Ok(())
    }
}

#[derive(Debug, Clone, Copy, PartialEq, Eq)]
#[allow(inconsistent_fields)]
pub enum WireError {
    InvalidLimits,
    Incomplete { needed: usize },
    Truncated,
    InvalidMagic,
    UnsupportedVersion { found: WireVersion, supported_major: u8 },
    ReservedFlags { flags: u8 },
    FrameTooLarge { length: usize, max: usize },
    BufferTooLarge { max: usize },
    UnknownMandatoryMessage { message_type: u8 },
    KnownMessageMarkedOptional { message_type: MessageType },
    MalformedMessage { message_type: MessageType, reason: &'static str },
    FieldTooLarge { field: &'static str, length: usize, max: usize },
    UnsupportedCapability { id: u16 },
    MissingRequiredCapability { id: u16 },
    DuplicateCapability { id: u16 },
    TrailingBytes,
    InvalidState { phase: ProtocolPhase, message_type: MessageType },
    DuplicateNegotiation,
    InvalidSequence { sequence: u64, previous: u64 },
    InvalidSession,
    Io { kind: IoErrorKind },
}

#[derive(Debug, Clone, Copy, PartialEq, Eq, Structural)]
pub enum ProtocolPhase {
    PreAuthentication,
    Negotiating,
    Authenticating,
    Authenticated,
    Transferring,
    Closing,
    Closed,
}

#[derive(Debug, Clone, Copy, PartialEq, Eq, Structural)]
pub enum MessageType {
    Hello,
    HelloAck,
    Auth,
    SessionStart,
    SessionAccept,
    ManifestOffer,
    ManifestAccept,
    ChunkRequest,
    ChunkData,
    ChunkAck,
    Pause,
    Resume,
    Cancel,
    Close,
    Error,
}

#[derive(Debug, Clone, Copy, PartialEq, Eq, Structural)]
pub enum MessageClass {
    Negotiation,
    Authentication,
    Session,
    Data,
    Control,
    Terminal,
}

impl MessageType {
    /// The number that stands for this type in a frame header.
    pub open spec fn code(self) -> u8 {
        match self {
            MessageType::Hello => 1,
            MessageType::HelloAck => 2,
            MessageType::Auth => 3,
            MessageType::SessionStart => 4,
            MessageType::SessionAccept => 5,
            MessageType::ManifestOffer => 6,
            MessageType::ManifestAccept => 7,
            MessageType::ChunkRequest => 8,
            MessageType::ChunkData => 9,
            MessageType::ChunkAck => 10,
            MessageType::Pause => 11,
            MessageType::Resume => 12,
            MessageType::Cancel => 13,
            MessageType::Close => 14,
            MessageType::Error => 15,
        }
    }

    pub fn to_wire(self) -> (value: u8)
        ensures
            value == self.code(),
            1 <= value <= 15,
    {
        match self {
            Self::Hello => 1,
            Self::HelloAck => 2,
            Self::Auth => 3,
            Self::SessionStart => 4,
            Self::SessionAccept => 5,
            Self::ManifestOffer => 6,
            Self::ManifestAccept => 7,
            Self::ChunkRequest => 8,
            Self::ChunkData => 9,
            Self::ChunkAck => 10,
            Self::Pause => 11,
            Self::Resume => 12,
            Self::Cancel => 13,
            Self::Close => 14,
            Self::Error => 15,
        }
    }

    pub fn from_wire(value: u8) -> (found: Option<Self>)
        ensures
            found matches Some(t) ==> t.code() == value,
            found is None <==> !(1 <= value <= 15),
    {
        match value {
            1 => Some(Self::Hello),
            2 => Some(Self::HelloAck),
            3 => Some(Self::Auth),
            4 => Some(Self::SessionStart),
            5 => Some(Self::SessionAccept),
            6 => Some(Self::ManifestOffer),
            7 => Some(Self::ManifestAccept),
            8 => Some(Self::ChunkRequest),
            9 => Some(Self::ChunkData),
            10 => Some(Self::ChunkAck),
            11 => Some(Self::Pause),
            12 => Some(Self::Resume),
            13 => Some(Self::Cancel),
            14 => Some(Self::Close),
            15 => Some(Self::Error),
            _ => None,
        }
    }

    pub open spec fn class_of(self) -> MessageClass {
        match self {
            MessageType::Hello | MessageType::HelloAck | MessageType::ManifestOffer
            | MessageType::ManifestAccept => MessageClass::Negotiation,
            MessageType::Auth => MessageClass::Authentication,
            MessageType::SessionStart | MessageType::SessionAccept => MessageClass::Session,
            MessageType::ChunkRequest | MessageType::ChunkData
            | MessageType::ChunkAck => MessageClass::Data,
            MessageType::Pause | MessageType::Resume => MessageClass::Control,
            MessageType::Cancel | MessageType::Close | MessageType::Error => MessageClass::Terminal,
        }
    }

    pub fn class(self) -> (class: MessageClass)
        ensures
            class == self.class_of(),
    {
        match self {
            Self::Hello | Self::HelloAck => MessageClass::Negotiation,
            Self::Auth => MessageClass::Authentication,
            Self::SessionStart | Self::SessionAccept => MessageClass::Session,
            Self::ManifestOffer | Self::ManifestAccept => MessageClass::Negotiation,
            Self::ChunkRequest | Self::ChunkData | Self::ChunkAck => MessageClass::Data,
            Self::Pause | Self::Resume => MessageClass::Control,
            Self::Cancel | Self::Close | Self::Error => MessageClass::Terminal,
        }
    }
}

#[derive(Debug, Clone, Copy, PartialEq, Eq, Structural)]
pub enum AuthMessageKind {
    Init,
    Response,
    Confirm,
}

impl AuthMessageKind {
    pub open spec fn code(self) -> u8 {
        match self {
            AuthMessageKind::Init => 1,
            AuthMessageKind::Response => 2,
            AuthMessageKind::Confirm => 3,
        }
    }

    pub fn to_wire(self) -> (value: u8)
        ensures
            value == self.code(),
    {
        match self {
            Self::Init => 1,
            Self::Response => 2,
            Self::Confirm => 3,
        }
    }

    pub fn from_wire(value: u8) -> (found: Option<Self>)
        ensures
            found matches Some(kind) ==> kind.code() == value,
            found is None <==> !(1 <= value <= 3),
    {
        match value {
            1 => Some(Self::Init),
            2 => Some(Self::Response),
            3 => Some(Self::Confirm),
            _ => None,
        }
    }
}

#[derive(Debug, Clone, Copy, PartialEq, Eq, Structural)]
pub enum WireRole {
    Sender,
    Receiver,
}

impl WireRole {
    pub open spec fn code(self) -> u8 {
        match self {
            WireRole::Sender => 1,
            WireRole::Receiver => 2,
        }
    }

    pub fn to_wire(self) -> (value: u8)
        ensures
            value == self.code(),
    {
        match self {
            Self::Sender => 1,
            Self::Receiver => 2,
        }
    }

    pub fn from_wire(value: u8) -> (found: Option<Self>)
        ensures
            found matches Some(role) ==> role.code() == value,
            found is None <==> !(1 <= value <= 2),
    {
        match value {
            1 => Some(Self::Sender),
            2 => Some(Self::Receiver),
            _ => None,
        }
    }
}

/// Sixteen bytes that name a session, a transfer or a file.
#[derive(Clone, Copy, PartialEq, Eq, Hash, Default)]
pub struct WireId([u8; 16]);

impl View for WireId {
    type V = Seq<u8>;

    closed spec fn view(&self) -> Seq<u8> {
        self.0@
    }
}

impl WireId {
    pub fn from_bytes(bytes: [u8; 16]) -> (id: Self)
        ensures
            id@ == bytes@,
    {
        Self(bytes)
    }

    pub fn as_bytes(&self) -> (bytes: &[u8; 16])
        ensures
            bytes@ == self@,
    {
        &self.0
    }

    pub broadcast proof fn lemma_len(self)
        ensures
            #[trigger] self@.len() == 16,
    {
    }

    /// The identifier that sixteen bytes spell.
    pub fn from_slice(bytes: &[u8]) -> (id: Self)
        requires
            bytes@.len() == 16,
        ensures
            id@ == bytes@,
    {
        let mut id: [u8; 16] = [0u8;16];
        let mut i: usize = 0;
        while i < 16
            invariant
                i <= 16,
                bytes@.len() == 16,
                forall|k: int| 0 <= k < i ==> id@[k] == bytes@[k],
            decreases 16 - i,
        {
            id[i] = bytes[i];
            i = i + 1;
        }
        assert(id@ =~= bytes@);
        Self(id)
    }

    pub fn same(&self, other: &Self) -> (same: bool)
        ensures
            same == (self@ == other@),
    {
        let mut i: usize = 0;
        while i < 16
            invariant
                i <= 16,
                forall|k: int| 0 <= k < i ==> self@[k] == other@[k],
            decreases 16 - i,
        {
            if self.0[i] != other.0[i] {
                assert(self@[i as int] != other@[i as int]);
                return false;
            }
            i = i + 1;
        }
        assert(self@ =~= other@);
        true
    }
}

#[derive(Debug, Clone, Copy, PartialEq, Eq, Structural)]
pub enum KnownCapability {
    EncryptedRecords,
    Pause,
    Resume,
    Relay,
}

impl KnownCapability {
    pub open spec fn number(self) -> u16 {
        match self {
            KnownCapability::EncryptedRecords => 1,
            KnownCapability::Pause => 2,
            KnownCapability::Resume => 3,
            KnownCapability::Relay => 4,
        }
    }

    /// Whether some known capability has this number.
    pub open spec fn knows(id: u16) -> bool {
        1 <= id <= 4
    }

    pub fn id(self) -> (id: u16)
        ensures
            id == self.number(),
    {
        match self {
            Self::EncryptedRecords => 1,
            Self::Pause => 2,
            Self::Resume => 3,
            Self::Relay => 4,
        }
    }

    pub fn from_id(id: u16) -> (found: Option<Self>)
        ensures
            found matches Some(capability) ==> capability.number() == id,
            found is Some <==> Self::knows(id),
    {
        match id {
            1 => Some(Self::EncryptedRecords),
            2 => Some(Self::Pause),
            3 => Some(Self::Resume),
            4 => Some(Self::Relay),
            _ => None,
        }
    }
}

#[derive(Debug, Clone, Copy, PartialEq, Eq, Structural)]
pub struct CapabilityOffer {
    pub id: u16,
    pub required: bool,
}

impl CapabilityOffer {
    pub fn optional(id: u16) -> (offer: Self)
        ensures
            offer == (CapabilityOffer { id, required: false }),
    {
        Self { id, required: false }
    }

    pub fn required(id: u16) -> (offer: Self)
        ensures
            offer == (CapabilityOffer { id, required: true }),
    {
        Self { id, required: true }
    }

    pub fn known(self) -> (found: Option<KnownCapability>)
        ensures
            found matches Some(capability) ==> capability.number() == self.id,
            found is Some <==> KnownCapability::knows(self.id),
    {
        KnownCapability::from_id(self.id)
    }
}

} // verus!
