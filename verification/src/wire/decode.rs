//! Messages read back from payload bytes.
use vstd::prelude::*;
use crate::wire::bytes::{be_value, lemma_be_bounds, lemma_be_value_bound, read_be};
use crate::wire::encode::{append_bytes, capabilities_fault, malformed, validate_capabilities};
use crate::wire::message::{MessageModel, WireMessage};
use crate::wire::types::{
    AuthMessageKind, CapabilityOffer, MessageType, WireError, WireId, WireLimits, WireRole,
    WireVersion,
};

verus! {

/// What follows a field: nothing if the field could not be read.
pub open spec fn bind<T, U>(
    field: Result<T, WireError>,
    rest: spec_fn(T) -> Result<U, WireError>,
) -> Result<U, WireError> {
    match field {
        Ok(value) => rest(value),
        Err(error) => Err(error),
    }
}

/// The `count` bytes at `at`.
pub open spec fn bytes_at(b: Seq<u8>, at: int, count: int, t: MessageType) -> Result<
    Seq<u8>,
    WireError,
> {
    if at + count > usize::MAX {
        Err(malformed(t, "field length overflow"))
    } else if at + count > b.len() {
        Err(WireError::Incomplete { needed: (at + count - b.len()) as usize })
    } else {
        Ok(b.subrange(at, at + count))
    }
}

pub open spec fn u8_at(b: Seq<u8>, at: int, t: MessageType) -> Result<u8, WireError> {
    bind(bytes_at(b, at, 1, t), |s: Seq<u8>| Ok(s[0]))
}

pub open spec fn u16_at(b: Seq<u8>, at: int, t: MessageType) -> Result<u16, WireError> {
    bind(bytes_at(b, at, 2, t), |s: Seq<u8>| Ok(be_value(s) as u16))
}

pub open spec fn u32_at(b: Seq<u8>, at: int, t: MessageType) -> Result<u32, WireError> {
    bind(bytes_at(b, at, 4, t), |s: Seq<u8>| Ok(be_value(s) as u32))
}

pub open spec fn u64_at(b: Seq<u8>, at: int, t: MessageType) -> Result<u64, WireError> {
    bind(bytes_at(b, at, 8, t), |s: Seq<u8>| Ok(be_value(s) as u64))
}

pub open spec fn id_at(b: Seq<u8>, at: int, t: MessageType) -> Result<Seq<u8>, WireError> {
    bytes_at(b, at, 16, t)
}

pub open spec fn version_at(b: Seq<u8>, at: int, t: MessageType) -> Result<
    WireVersion,
    WireError,
> {
    bind(
        u8_at(b, at, t),
        |major: u8| bind(u8_at(b, at + 1, t), |minor: u8| Ok(WireVersion { major, minor })),
    )
}

pub open spec fn role_of_code(code: u8) -> Option<WireRole> {
    if code == 1 {
        Some(WireRole::Sender)
    } else if code == 2 {
        Some(WireRole::Receiver)
    } else {
        None
    }
}

pub open spec fn role_at(b: Seq<u8>, at: int, t: MessageType) -> Result<WireRole, WireError> {
    bind(
        u8_at(b, at, t),
        |code: u8|
            match role_of_code(code) {
                Some(role) => Ok(role),
                None => Err(malformed(t, "unknown role")),
            },
    )
}

pub open spec fn auth_kind_of_code(code: u8) -> Option<AuthMessageKind> {
    if code == 1 {
        Some(AuthMessageKind::Init)
    } else if code == 2 {
        Some(AuthMessageKind::Response)
    } else if code == 3 {
        Some(AuthMessageKind::Confirm)
    } else {
        None
    }
}

pub open spec fn auth_kind_at(b: Seq<u8>, at: int, t: MessageType) -> Result<
    AuthMessageKind,
    WireError,
> {
    bind(
        u8_at(b, at, t),
        |code: u8|
            match auth_kind_of_code(code) {
                Some(kind) => Ok(kind),
                None => Err(malformed(t, "unknown authentication message kind")),
            },
    )
}

/// The offer in the three bytes at `at`.
pub open spec fn offer_at(b: Seq<u8>, at: int, t: MessageType) -> Result<
    CapabilityOffer,
    WireError,
> {
    bind(
        u16_at(b, at, t),
        |id: u16|
            bind(
                u8_at(b, at + 2, t),
                |flags: u8|
                    if flags > 1 {
                        Err(malformed(t, "unknown capability flags"))
                    } else {
                        Ok(CapabilityOffer { id, required: flags == 1 })
                    },
            ),
    )
}

/// The first `count` offers that stand from `at` on.
pub open spec fn offers_at(b: Seq<u8>, at: int, count: nat, t: MessageType) -> Result<
    Seq<CapabilityOffer>,
    WireError,
>
    decreases count,
{
    if count == 0 {
        Ok(Seq::empty())
    } else {
        bind(
            offers_at(b, at, (count - 1) as nat, t),
            |earlier: Seq<CapabilityOffer>|
                bind(
                    offer_at(b, at + 3 * (count - 1), t),
                    |offer: CapabilityOffer| Ok(earlier.push(offer)),
                ),
        )
    }
}

/// The counted list of offers at `at`; it ends `2 + 3 * count` bytes further on.
pub open spec fn capabilities_at(b: Seq<u8>, at: int, max: usize, t: MessageType) -> Result<
    Seq<CapabilityOffer>,
    WireError,
> {
    bind(
        u16_at(b, at, t),
        |count: u16|
            if count > max {
                Err(
                    WireError::FieldTooLarge {
                        field: "capabilities",
                        length: count as usize,
                        max,
                    },
                )
            } else {
                bind(
                    offers_at(b, at + 2, count as nat, t),
                    |offers: Seq<CapabilityOffer>|
                        match capabilities_fault(offers, max) {
                            Some(error) => Err(error),
                            None => Ok(offers),
                        },
                )
            },
    )
}

/// The content of the opaque field at `at`; it ends four bytes and the content further on.
pub open spec fn opaque_at(
    b: Seq<u8>,
    at: int,
    field: &'static str,
    max: usize,
    t: MessageType,
) -> Result<Seq<u8>, WireError> {
    bind(
        u32_at(b, at, t),
        |length: u32|
            if length > max {
                Err(WireError::FieldTooLarge { field, length: length as usize, max })
            } else {
                bytes_at(b, at + 4, length as int, t)
            },
    )
}

/// The message, if its fields end where the payload ends.
pub open spec fn whole(b: Seq<u8>, end: nat, message: MessageModel) -> Result<
    MessageModel,
    WireError,
> {
    if end == b.len() {
        Ok(message)
    } else {
        Err(WireError::TrailingBytes)
    }
}

/// Two identifiers and three numbers, the fields that all chunk messages begin with.
pub open spec fn chunk_head<U>(
    b: Seq<u8>,
    t: MessageType,
    rest: spec_fn(Seq<u8>, Seq<u8>, u64, u64, u64) -> Result<U, WireError>,
) -> Result<U, WireError> {
    bind(
        id_at(b, 0, t),
        |session_id: Seq<u8>|
            bind(
                id_at(b, 16, t),
                |file_id: Seq<u8>|
                    bind(
                        u64_at(b, 32, t),
                        |index: u64|
                            bind(
                                u64_at(b, 40, t),
                                |offset: u64|
                                    bind(
                                        u64_at(b, 48, t),
                                        |length: u64|
                                            rest(session_id, file_id, index, offset, length),
                                    ),
                            ),
                    ),
            ),
    )
}

/// The message of type `t` in the payload `b`, or the first thing that is wrong with it.
#[verifier::opaque]
pub open spec fn parsed_message(t: MessageType, b: Seq<u8>, limits: WireLimits) -> Result<
    MessageModel,
    WireError,
> {
    match t {
        MessageType::Hello => bind(
            capabilities_at(b, 0, limits.max_capabilities, t),
            |capabilities: Seq<CapabilityOffer>|
                whole(b, 2 + 3 * capabilities.len(), MessageModel::Hello { capabilities }),
        ),
        MessageType::HelloAck => bind(
            version_at(b, 0, t),
            |version: WireVersion|
                bind(
                    capabilities_at(b, 2, limits.max_capabilities, t),
                    |capabilities: Seq<CapabilityOffer>|
                        whole(
                            b,
                            4 + 3 * capabilities.len(),
                            MessageModel::HelloAck { version, capabilities },
                        ),
                ),
        ),
        MessageType::Auth => bind(
            auth_kind_at(b, 0, t),
            |kind: AuthMessageKind|
                bind(
                    opaque_at(b, 1, "authentication", limits.max_opaque_payload, t),
                    |body: Seq<u8>| whole(b, 5 + body.len(), MessageModel::Auth { kind, body }),
                ),
        ),
        MessageType::SessionStart => bind(
            id_at(b, 0, t),
            |session_id: Seq<u8>|
                bind(
                    id_at(b, 16, t),
                    |transfer_id: Seq<u8>|
                        bind(
                            role_at(b, 32, t),
                            |role: WireRole|
                                whole(
                                    b,
                                    33,
                                    MessageModel::SessionStart { session_id, transfer_id, role },
                                ),
                        ),
                ),
        ),
        MessageType::SessionAccept => bind(
            id_at(b, 0, t),
            |session_id: Seq<u8>| whole(b, 16, MessageModel::SessionAccept { session_id }),
        ),
        MessageType::ManifestOffer => bind(
            id_at(b, 0, t),
            |session_id: Seq<u8>|
                bind(
                    u64_at(b, 16, t),
                    |file_count: u64|
                        bind(
                            u64_at(b, 24, t),
                            |total_size: u64|
                                bind(
                                    opaque_at(b, 32, "manifest", limits.max_opaque_payload, t),
                                    |body: Seq<u8>|
                                        whole(
                                            b,
                                            36 + body.len(),
                                            MessageModel::ManifestOffer {
                                                session_id,
                                                file_count,
                                                total_size,
                                                body,
                                            },
                                        ),
                                ),
                        ),
                ),
        ),
        MessageType::ManifestAccept => bind(
            id_at(b, 0, t),
            |session_id: Seq<u8>| whole(b, 16, MessageModel::ManifestAccept { session_id }),
        ),
        MessageType::ChunkRequest => chunk_head(
            b,
            t,
            |session_id: Seq<u8>, file_id: Seq<u8>, index: u64, offset: u64, length: u64|
                whole(
                    b,
                    56,
                    MessageModel::ChunkRequest { session_id, file_id, index, offset, length },
                ),
        ),
        MessageType::ChunkData => chunk_head(
            b,
            t,
            |session_id: Seq<u8>, file_id: Seq<u8>, index: u64, offset: u64, length: u64|
                bind(
                    opaque_at(b, 56, "chunk", limits.max_opaque_payload, t),
                    |body: Seq<u8>|
                        if length > usize::MAX {
                            Err(malformed(t, "chunk length does not fit platform usize"))
                        } else if length != body.len() {
                            Err(malformed(t, "chunk length does not match body length"))
                        } else {
                            whole(
                                b,
                                60 + body.len(),
                                MessageModel::ChunkData {
                                    session_id,
                                    file_id,
                                    index,
                                    offset,
                                    length,
                                    body,
                                },
                            )
                        },
                ),
        ),
        MessageType::ChunkAck => chunk_head(
            b,
            t,
            |session_id: Seq<u8>, file_id: Seq<u8>, index: u64, offset: u64, length: u64|
                whole(b, 56, MessageModel::ChunkAck { session_id, file_id, index, offset, length }),
        ),
        MessageType::Pause => bind(
            id_at(b, 0, t),
            |session_id: Seq<u8>| whole(b, 16, MessageModel::Pause { session_id }),
        ),
        MessageType::Resume => bind(
            id_at(b, 0, t),
            |session_id: Seq<u8>| whole(b, 16, MessageModel::Resume { session_id }),
        ),
        MessageType::Cancel => bind(
            id_at(b, 0, t),
            |session_id: Seq<u8>|
                bind(
                    u16_at(b, 16, t),
                    |reason: u16| whole(b, 18, MessageModel::Cancel { session_id, reason }),
                ),
        ),
        MessageType::Close => bind(
            id_at(b, 0, t),
            |session_id: Seq<u8>|
                bind(
                    u16_at(b, 16, t),
                    |reason: u16| whole(b, 18, MessageModel::Close { session_id, reason }),
                ),
        ),
        MessageType::Error => bind(
            u16_at(b, 0, t),
            |code: u16| whole(b, 2, MessageModel::Error { code }),
        ),
    }
}

struct PayloadReader<'a> {
    bytes: &'a [u8],
    offset: usize,
}

impl<'a> PayloadReader<'a> {
    spec fn ok(self) -> bool {
        self.offset <= self.bytes@.len()
    }

    /// After a field of `count` bytes was read.
    spec fn after(self, before: Self, count: nat) -> bool {
        &&& self.ok()
        &&& self.bytes == before.bytes
        &&& self.offset == before.offset + count
    }

    fn new(bytes: &'a [u8]) -> (reader: Self)
        ensures
            reader.bytes == bytes,
            reader.offset == 0,
            reader.ok(),
    {
        Self { bytes, offset: 0 }
    }

    fn take(&mut self, length: usize, message_type: MessageType) -> (result: Result<
        &'a [u8],
        WireError,
    >)
        requires
            old(self).ok(),
        ensures
            match result {
                Ok(value) => {
                    &&& bytes_at(
                        old(self).bytes@,
                        old(self).offset as int,
                        length as int,
                        message_type,
                    ) == Ok::<Seq<u8>, WireError>(value@)
                    &&& final(self).after(*old(self), length as nat)
                },
                Err(error) => bytes_at(
                    old(self).bytes@,
                    old(self).offset as int,
                    length as int,
                    message_type,
                ) == Err::<Seq<u8>, WireError>(error),
            },
    {
        let end: usize = match self.offset.checked_add(length) {
            Some(end) => end,
            None => {
                return Err(
                    WireError::MalformedMessage { message_type, reason: "field length overflow" },
                );
            },
        };
        if end > self.bytes.len() {
            return Err(WireError::Incomplete { needed: end - self.bytes.len() });
        }
        let value = vstd::slice::slice_subrange(self.bytes, self.offset, end);
        self.offset = end;
        Ok(value)
    }

    fn u8(&mut self, message_type: MessageType) -> (result: Result<u8, WireError>)
        requires
            old(self).ok(),
        ensures
            result == u8_at(old(self).bytes@, old(self).offset as int, message_type),
            result is Ok ==> final(self).after(*old(self), 1),
    {
        let bytes = self.take(1, message_type)?;
        Ok(bytes[0])
    }

    fn u16(&mut self, message_type: MessageType) -> (result: Result<u16, WireError>)
        requires
            old(self).ok(),
        ensures
            result == u16_at(old(self).bytes@, old(self).offset as int, message_type),
            result is Ok ==> final(self).after(*old(self), 2),
    {
        let bytes = self.take(2, message_type)?;
        proof {
            lemma_be_value_bound(bytes@);
            lemma_be_bounds();
        }
        Ok(read_be(bytes) as u16)
    }

    fn u32(&mut self, message_type: MessageType) -> (result: Result<u32, WireError>)
        requires
            old(self).ok(),
        ensures
            result == u32_at(old(self).bytes@, old(self).offset as int, message_type),
            result is Ok ==> final(self).after(*old(self), 4),
    {
        let bytes = self.take(4, message_type)?;
        proof {
            lemma_be_value_bound(bytes@);
            lemma_be_bounds();
        }
        Ok(read_be(bytes) as u32)
    }

    fn u64(&mut self, message_type: MessageType) -> (result: Result<u64, WireError>)
        requires
            old(self).ok(),
        ensures
            result == u64_at(old(self).bytes@, old(self).offset as int, message_type),
            result is Ok ==> final(self).after(*old(self), 8),
    {
        let bytes = self.take(8, message_type)?;
        Ok(read_be(bytes))
    }

    fn id(&mut self, message_type: MessageType) -> (result: Result<WireId, WireError>)
        requires
            old(self).ok(),
        ensures
            match result {
                Ok(id) => {
                    &&& id_at(old(self).bytes@, old(self).offset as int, message_type) == Ok::<
                        Seq<u8>,
                        WireError,
                    >(id@)
                    &&& final(self).after(*old(self), 16)
                },
                Err(error) => id_at(old(self).bytes@, old(self).offset as int, message_type)
                    == Err::<Seq<u8>, WireError>(error),
            },
    {
        let bytes = self.take(16, message_type)?;
        Ok(WireId::from_slice(bytes))
    }

    fn version(&mut self, message_type: MessageType) -> (result: Result<WireVersion, WireError>)
        requires
            old(self).ok(),
        ensures
            result == version_at(old(self).bytes@, old(self).offset as int, message_type),
            result is Ok ==> final(self).after(*old(self), 2),
    {
        let major: u8 = self.u8(message_type)?;
        let minor: u8 = self.u8(message_type)?;
        Ok(WireVersion::new(major, minor))
    }

    fn role(&mut self, message_type: MessageType) -> (result: Result<WireRole, WireError>)
        requires
            old(self).ok(),
        ensures
            result == role_at(old(self).bytes@, old(self).offset as int, message_type),
            result is Ok ==> final(self).after(*old(self), 1),
    {
        let value: u8 = self.u8(message_type)?;
        match WireRole::from_wire(value) {
            Some(role) => Ok(role),
            None => Err(WireError::MalformedMessage { message_type, reason: "unknown role" }),
        }
    }

    fn auth_kind(&mut self, message_type: MessageType) -> (result: Result<
        AuthMessageKind,
        WireError,
    >)
        requires
            old(self).ok(),
        ensures
            result == auth_kind_at(old(self).bytes@, old(self).offset as int, message_type),
            result is Ok ==> final(self).after(*old(self), 1),
    {
        let value: u8 = self.u8(message_type)?;
        match AuthMessageKind::from_wire(value) {
            Some(kind) => Ok(kind),
            None => Err(
                WireError::MalformedMessage {
                    message_type,
                    reason: "unknown authentication message kind",
                },
            ),
        }
    }

    fn capabilities(&mut self, max_capabilities: usize, message_type: MessageType) -> (result:
        Result<Vec<CapabilityOffer>, WireError>)
        requires
            old(self).ok(),
        ensures
            match result {
                Ok(offers) => {
                    &&& capabilities_at(
                        old(self).bytes@,
                        old(self).offset as int,
                        max_capabilities,
                        message_type,
                    ) == Ok::<Seq<CapabilityOffer>, WireError>(offers@)
                    &&& final(self).after(*old(self), 2 + 3 * offers@.len())
                },
                Err(error) => capabilities_at(
                    old(self).bytes@,
                    old(self).offset as int,
                    max_capabilities,
                    message_type,
                ) == Err::<Seq<CapabilityOffer>, WireError>(error),
            },
    {
        let ghost b = self.bytes@;
        let ghost at = self.offset as int;
        let count: u16 = self.u16(message_type)?;
        if count as usize > max_capabilities {
            return Err(
                WireError::FieldTooLarge {
                    field: "capabilities",
                    length: count as usize,
                    max: max_capabilities,
                },
            );
        }
        let mut capabilities: Vec<CapabilityOffer> = Vec::new();
        let mut i: u16 = 0;
        while i < count
            invariant
                i <= count <= max_capabilities,
                self.ok(),
                self.bytes == old(self).bytes,
                b == self.bytes@,
                at == old(self).offset,
                u16_at(b, at, message_type) == Ok::<u16, WireError>(count),
                self.offset == at + 2 + 3 * i,
                capabilities@.len() == i,
                offers_at(b, at + 2, i as nat, message_type) == Ok::<
                    Seq<CapabilityOffer>,
                    WireError,
                >(capabilities@),
            decreases count - i,
        {
            proof {
                if offer_at(b, at + 2 + 3 * i, message_type) is Err {
                    lemma_offers_at_err(b, at + 2, i as nat + 1, count as nat, message_type);
                }
            }
            let id: u16 = self.u16(message_type)?;
            let flags: u8 = self.u8(message_type)?;
            assert((flags & !1u8 != 0) == (flags > 1)) by (bit_vector);
            assert(flags <= 1 ==> (flags & 1u8 != 0) == (flags == 1)) by (bit_vector);
            if flags & !1u8 != 0 {
                return Err(
                    WireError::MalformedMessage {
                        message_type,
                        reason: "unknown capability flags",
                    },
                );
            }
            capabilities.push(CapabilityOffer { id, required: flags & 1u8 != 0 });
            i = i + 1;
        }
        validate_capabilities(&capabilities, max_capabilities)?;
        Ok(capabilities)
    }

    fn opaque(&mut self, field: &'static str, max: usize, message_type: MessageType) -> (result:
        Result<Vec<u8>, WireError>)
        requires
            old(self).ok(),
        ensures
            match result {
                Ok(body) => {
                    &&& opaque_at(
                        old(self).bytes@,
                        old(self).offset as int,
                        field,
                        max,
                        message_type,
                    ) == Ok::<Seq<u8>, WireError>(body@)
                    &&& final(self).after(*old(self), 4 + body@.len())
                },
                Err(error) => opaque_at(
                    old(self).bytes@,
                    old(self).offset as int,
                    field,
                    max,
                    message_type,
                ) == Err::<Seq<u8>, WireError>(error),
            },
    {
        let length: u32 = self.u32(message_type)?;
        if length as usize > max {
            return Err(WireError::FieldTooLarge { field, length: length as usize, max });
        }
        let bytes = self.take(length as usize, message_type)?;
        let mut body: Vec<u8> = Vec::new();
        append_bytes(&mut body, bytes);
        assert(body@ =~= bytes@);
        Ok(body)
    }

    fn finish(&self) -> (result: Result<(), WireError>)
        ensures
            result == (if self.offset == self.bytes@.len() {
                Ok::<(), WireError>(())
            } else {
                Err(WireError::TrailingBytes)
            }),
    {
        if self.offset == self.bytes.len() {
            Ok(())
        } else {
            Err(WireError::TrailingBytes)
        }
    }
}

/// Where one of the first offers cannot be read, neither can the longer list.
pub proof fn lemma_offers_at_err(b: Seq<u8>, at: int, count: nat, total: nat, t: MessageType)
    requires
        count <= total,
        offers_at(b, at, count, t) is Err,
    ensures
        offers_at(b, at, total, t) == offers_at(b, at, count, t),
    decreases total,
{
    if count < total {
        lemma_offers_at_err(b, at, count, (total - 1) as nat, t);
    }
}

impl WireMessage {
    /// The message of a given type that a payload holds.
    pub(crate) fn decode_payload(
        message_type: MessageType,
        payload: &[u8],
        limits: WireLimits,
    ) -> (result: Result<Self, WireError>)
        ensures
            match result {
                Ok(message) => parsed_message(message_type, payload@, limits) == Ok::<
                    MessageModel,
                    WireError,
                >(message@),
                Err(error) => parsed_message(message_type, payload@, limits) == Err::<
                    MessageModel,
                    WireError,
                >(error),
            },
    {
        reveal(parsed_message);
        reveal(WireMessage::model);
        let mut reader = PayloadReader::new(payload);
        let message = match message_type {
            MessageType::Hello => {
                let capabilities = reader.capabilities(limits.max_capabilities, message_type)?;
                Self::Hello { capabilities }
            },
            MessageType::HelloAck => {
                let version = reader.version(message_type)?;
                let capabilities = reader.capabilities(limits.max_capabilities, message_type)?;
                Self::HelloAck { version, capabilities }
            },
            MessageType::Auth => {
                let kind = reader.auth_kind(message_type)?;
                let body = reader.opaque(
                    "authentication",
                    limits.max_opaque_payload,
                    message_type,
                )?;
                Self::Auth { kind, body }
            },
            MessageType::SessionStart => {
                let session_id = reader.id(message_type)?;
                let transfer_id = reader.id(message_type)?;
                let role = reader.role(message_type)?;
                Self::SessionStart { session_id, transfer_id, role }
            },
            MessageType::SessionAccept => {
                let session_id = reader.id(message_type)?;
                Self::SessionAccept { session_id }
            },
            MessageType::ManifestOffer => {
                let session_id = reader.id(message_type)?;
                let file_count: u64 = reader.u64(message_type)?;
                let total_size: u64 = reader.u64(message_type)?;
                let body = reader.opaque("manifest", limits.max_opaque_payload, message_type)?;
                Self::ManifestOffer { session_id, file_count, total_size, body }
            },
            MessageType::ManifestAccept => {
                let session_id = reader.id(message_type)?;
                Self::ManifestAccept { session_id }
            },
            MessageType::ChunkRequest => {
                let session_id = reader.id(message_type)?;
                let file_id = reader.id(message_type)?;
                let index: u64 = reader.u64(message_type)?;
                let offset: u64 = reader.u64(message_type)?;
                let length: u64 = reader.u64(message_type)?;
                Self::ChunkRequest { session_id, file_id, index, offset, length }
            },
            MessageType::ChunkData => {
                let session_id = reader.id(message_type)?;
                let file_id = reader.id(message_type)?;
                let index: u64 = reader.u64(message_type)?;
                let offset: u64 = reader.u64(message_type)?;
                let length: u64 = reader.u64(message_type)?;
                let body = reader.opaque("chunk", limits.max_opaque_payload, message_type)?;
                if length > usize::MAX as u64 {
                    return Err(
                        WireError::MalformedMessage {
                            message_type,
                            reason: "chunk length does not fit platform usize",
                        },
                    );
                }
                if length as usize != body.len() {
                    return Err(
                        WireError::MalformedMessage {
                            message_type,
                            reason: "chunk length does not match body length",
                        },
                    );
                }
                Self::ChunkData { session_id, file_id, index, offset, length, body }
            },
            MessageType::ChunkAck => {
                let session_id = reader.id(message_type)?;
                let file_id = reader.id(message_type)?;
                let index: u64 = reader.u64(message_type)?;
                let offset: u64 = reader.u64(message_type)?;
                let length: u64 = reader.u64(message_type)?;
                Self::ChunkAck { session_id, file_id, index, offset, length }
            },
            MessageType::Pause => {
                let session_id = reader.id(message_type)?;
                Self::Pause { session_id }
            },
            MessageType::Resume => {
                let session_id = reader.id(message_type)?;
                Self::Resume { session_id }
            },
            MessageType::Cancel => {
                let session_id = reader.id(message_type)?;
                let reason: u16 = reader.u16(message_type)?;
                Self::Cancel { session_id, reason }
            },
            MessageType::Close => {
                let session_id = reader.id(message_type)?;
                let reason: u16 = reader.u16(message_type)?;
                Self::Close { session_id, reason }
            },
            MessageType::Error => {
                let code: u16 = reader.u16(message_type)?;
                Self::Error { code }
            },
        };
        reader.finish()?;
        Ok(message)
    }
}

} // verus!
