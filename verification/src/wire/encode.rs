//! Message payloads as bytes.
use vstd::prelude::*;
use crate::wire::bytes::{be_bytes, put_be};
use crate::wire::message::{MessageModel, WireMessage};
use crate::wire::types::{
    CapabilityOffer, KnownCapability, MessageType, WireError, WireId, WireLimits,
};

verus! {

/// Three bytes for each offer: its number and whether it is required.
pub open spec fn offers_bytes(offers: Seq<CapabilityOffer>) -> Seq<u8>
    decreases offers.len(),
{
    if offers.len() == 0 {
        Seq::empty()
    } else {
        offers_bytes(offers.drop_last()) + be_bytes(offers.last().id as nat, 2) + seq![
            if offers.last().required {
                1u8
            } else {
                0u8
            },
        ]
    }
}

pub open spec fn capabilities_bytes(offers: Seq<CapabilityOffer>) -> Seq<u8> {
    be_bytes(offers.len(), 2) + offers_bytes(offers)
}

/// An opaque field: four bytes of length, then the content.
pub open spec fn opaque_bytes(body: Seq<u8>) -> Seq<u8> {
    be_bytes(body.len(), 4) + body
}

/// The payload that carries a message, whatever the limits.
pub open spec fn payload_bytes(message: MessageModel) -> Seq<u8> {
    match message {
        MessageModel::Hello { capabilities } => capabilities_bytes(capabilities),
        MessageModel::HelloAck { version, capabilities } => seq![version.major, version.minor]
            + capabilities_bytes(capabilities),
        MessageModel::Auth { kind, body } => seq![kind.code()] + opaque_bytes(body),
        MessageModel::SessionStart { session_id, transfer_id, role } => session_id + transfer_id
            + seq![role.code()],
        MessageModel::SessionAccept { session_id }
        | MessageModel::ManifestAccept { session_id }
        | MessageModel::Pause { session_id }
        | MessageModel::Resume { session_id } => session_id,
        MessageModel::ManifestOffer { session_id, file_count, total_size, body } => session_id
            + be_bytes(file_count as nat, 8) + be_bytes(total_size as nat, 8) + opaque_bytes(body),
        MessageModel::ChunkRequest { session_id, file_id, index, offset, length }
        | MessageModel::ChunkAck { session_id, file_id, index, offset, length } => session_id
            + file_id + be_bytes(index as nat, 8) + be_bytes(offset as nat, 8) + be_bytes(
            length as nat,
            8,
        ),
        MessageModel::ChunkData { session_id, file_id, index, offset, length, body } => session_id
            + file_id + be_bytes(index as nat, 8) + be_bytes(offset as nat, 8) + be_bytes(
            length as nat,
            8,
        ) + opaque_bytes(body),
        MessageModel::Cancel { session_id, reason }
        | MessageModel::Close { session_id, reason } => session_id + be_bytes(reason as nat, 2),
        MessageModel::Error { code } => be_bytes(code as nat, 2),
    }
}

/// The first offer, in order, that repeats an earlier number or requires an unknown capability.
pub open spec fn offers_fault(offers: Seq<CapabilityOffer>) -> Option<WireError>
    decreases offers.len(),
{
    if offers.len() == 0 {
        None
    } else {
        let earlier = offers.drop_last();
        let offer = offers.last();
        match offers_fault(earlier) {
            Some(error) => Some(error),
            None => if exists|k: int| 0 <= k < earlier.len() && earlier[k].id == offer.id {
                Some(WireError::DuplicateCapability { id: offer.id })
            } else if offer.required && !KnownCapability::knows(offer.id) {
                Some(WireError::UnsupportedCapability { id: offer.id })
            } else {
                None
            },
        }
    }
}

/// What is wrong with a list of offers, if anything.
pub open spec fn capabilities_fault(offers: Seq<CapabilityOffer>, max: usize) -> Option<WireError> {
    if offers.len() > max || offers.len() > u16::MAX {
        Some(
            WireError::FieldTooLarge { field: "capabilities", length: offers.len() as usize, max },
        )
    } else {
        offers_fault(offers)
    }
}

pub open spec fn opaque_fault(field: &'static str, length: nat, max: usize) -> Option<WireError> {
    if length > max || length > u32::MAX {
        Some(WireError::FieldTooLarge { field, length: length as usize, max })
    } else {
        None
    }
}

pub open spec fn malformed(message_type: MessageType, reason: &'static str) -> WireError {
    WireError::MalformedMessage { message_type, reason }
}

/// What the content of a message breaks, if anything, before its length is looked at.
pub open spec fn content_fault(message: MessageModel, limits: WireLimits) -> Option<WireError> {
    match message {
        MessageModel::Hello { capabilities } => capabilities_fault(
            capabilities,
            limits.max_capabilities,
        ),
        MessageModel::HelloAck { capabilities, .. } => capabilities_fault(
            capabilities,
            limits.max_capabilities,
        ),
        MessageModel::Auth { body, .. } => opaque_fault(
            "authentication",
            body.len(),
            limits.max_opaque_payload,
        ),
        MessageModel::ManifestOffer { body, .. } => opaque_fault(
            "manifest",
            body.len(),
            limits.max_opaque_payload,
        ),
        MessageModel::ChunkData { length, body, .. } => if length > usize::MAX {
            Some(malformed(MessageType::ChunkData, "chunk length does not fit platform usize"))
        } else if length != body.len() {
            Some(malformed(MessageType::ChunkData, "chunk length does not match body length"))
        } else {
            opaque_fault("chunk", body.len(), limits.max_opaque_payload)
        },
        _ => None,
    }
}

/// The payload of a message under the given limits, or the reason why it has none.
pub open spec fn encoded_payload(message: MessageModel, limits: WireLimits) -> Result<
    Seq<u8>,
    WireError,
> {
    if !limits.valid() {
        Err(WireError::InvalidLimits)
    } else {
        match content_fault(message, limits) {
            Some(error) => Err(error),
            None => {
                let bytes = payload_bytes(message);
                if bytes.len() > limits.max_frame_payload {
                    Err(
                        WireError::FrameTooLarge {
                            length: bytes.len() as usize,
                            max: limits.max_frame_payload,
                        },
                    )
                } else {
                    Ok(bytes)
                }
            },
        }
    }
}

pub(crate) fn append_bytes(out: &mut Vec<u8>, bytes: &[u8])
    ensures
        final(out)@ == old(out)@ + bytes@,
{
    out.extend_from_slice(bytes);
    assert(out@ =~= old(out)@ + bytes@);
}

pub(crate) fn validate_capabilities(capabilities: &[CapabilityOffer], max_capabilities: usize) -> (result:
    Result<(), WireError>)
    ensures
        result == (match capabilities_fault(capabilities@, max_capabilities) {
            Some(error) => Err(error),
            None => Ok::<(), WireError>(()),
        }),
{
    if capabilities.len() > max_capabilities || capabilities.len() > u16::MAX as usize {
        return Err(
            WireError::FieldTooLarge {
                field: "capabilities",
                length: capabilities.len(),
                max: max_capabilities,
            },
        );
    }
    let mut i: usize = 0;
    while i < capabilities.len()
        invariant
            i <= capabilities@.len(),
            capabilities@.len() <= max_capabilities,
            capabilities@.len() <= u16::MAX,
            offers_fault(capabilities@.take(i as int)) is None,
        decreases capabilities@.len() - i,
    {
        let offer: CapabilityOffer = capabilities[i];
        let ghost upto = capabilities@.take(i as int + 1);
        assert(upto.drop_last() =~= capabilities@.take(i as int));
        let mut k: usize = 0;
        while k < i
            invariant
                k <= i < capabilities@.len(),
                capabilities@.len() <= max_capabilities,
                capabilities@.len() <= u16::MAX,
                offer == capabilities@[i as int],
                upto == capabilities@.take(i as int + 1),
                upto.drop_last() == capabilities@.take(i as int),
                offers_fault(capabilities@.take(i as int)) is None,
                forall|j: int| 0 <= j < k ==> capabilities@[j].id != offer.id,
            decreases i - k,
        {
            if capabilities[k].id == offer.id {
                proof {
                    assert(upto.drop_last()[k as int].id == offer.id);
                    lemma_offers_fault_prefix(capabilities@, i as int + 1);
                }
                return Err(WireError::DuplicateCapability { id: offer.id });
            }
            k = k + 1;
        }
        if offer.required && KnownCapability::from_id(offer.id).is_none() {
            proof {
                lemma_offers_fault_prefix(capabilities@, i as int + 1);
            }
            return Err(WireError::UnsupportedCapability { id: offer.id });
        }
        i = i + 1;
    }
    assert(capabilities@.take(i as int) =~= capabilities@);
    Ok(())
}

/// A fault in the first offers is the fault of the whole list.
pub proof fn lemma_offers_fault_prefix(offers: Seq<CapabilityOffer>, count: int)
    requires
        0 <= count <= offers.len(),
        offers_fault(offers.take(count)) is Some,
    ensures
        offers_fault(offers) == offers_fault(offers.take(count)),
    decreases offers.len(),
{
    if count < offers.len() {
        assert(offers.drop_last().take(count) =~= offers.take(count));
        lemma_offers_fault_prefix(offers.drop_last(), count);
    } else {
        assert(offers.take(count) =~= offers);
    }
}

fn ensure_opaque_limit(field: &'static str, length: usize, max: usize) -> (result: Result<
    (),
    WireError,
>)
    ensures
        result == (match opaque_fault(field, length as nat, max) {
            Some(error) => Err(error),
            None => Ok::<(), WireError>(()),
        }),
{
    if length > max || length > u32::MAX as usize {
        return Err(WireError::FieldTooLarge { field, length, max });
    }
    Ok(())
}

struct PayloadWriter {
    bytes: Vec<u8>,
}

impl PayloadWriter {
    fn new() -> (writer: Self)
        ensures
            writer.bytes@ == Seq::<u8>::empty(),
    {
        Self { bytes: Vec::new() }
    }

    fn put_u8(&mut self, value: u8)
        ensures
            final(self).bytes@ == old(self).bytes@ + seq![value],
    {
        self.bytes.push(value);
        assert(self.bytes@ =~= old(self).bytes@ + seq![value]);
    }

    fn put_u16(&mut self, value: u16)
        ensures
            final(self).bytes@ == old(self).bytes@ + be_bytes(value as nat, 2),
    {
        put_be(&mut self.bytes, value as u64, 2);
    }

    fn put_u64(&mut self, value: u64)
        ensures
            final(self).bytes@ == old(self).bytes@ + be_bytes(value as nat, 8),
    {
        put_be(&mut self.bytes, value, 8);
    }

    fn put_id(&mut self, value: WireId)
        ensures
            final(self).bytes@ == old(self).bytes@ + value@,
    {
        append_bytes(&mut self.bytes, value.as_bytes());
    }

    fn put_bytes(&mut self, value: &[u8])
        requires
            value@.len() <= u32::MAX,
        ensures
            final(self).bytes@ == old(self).bytes@ + opaque_bytes(value@),
    {
        put_be(&mut self.bytes, value.len() as u64, 4);
        append_bytes(&mut self.bytes, value);
        assert(self.bytes@ =~= old(self).bytes@ + opaque_bytes(value@));
    }

    fn put_capabilities(&mut self, offers: &[CapabilityOffer])
        requires
            offers@.len() <= u16::MAX,
        ensures
            final(self).bytes@ == old(self).bytes@ + capabilities_bytes(offers@),
    {
        self.put_u16(offers.len() as u16);
        let mut i: usize = 0;
        while i < offers.len()
            invariant
                i <= offers@.len(),
                self.bytes@ == old(self).bytes@ + be_bytes(offers@.len(), 2) + offers_bytes(
                    offers@.take(i as int),
                ),
            decreases offers@.len() - i,
        {
            let ghost upto = offers@.take(i as int + 1);
            assert(upto.drop_last() =~= offers@.take(i as int));
            let ghost before = self.bytes@;
            self.put_u16(offers[i].id);
            let required: u8 = if offers[i].required {
                1
            } else {
                0
            };
            self.put_u8(required);
            assert(self.bytes@ =~= old(self).bytes@ + be_bytes(offers@.len(), 2) + offers_bytes(
                upto,
            ));
            i = i + 1;
        }
        assert(offers@.take(i as int) =~= offers@);
        assert(self.bytes@ =~= old(self).bytes@ + capabilities_bytes(offers@));
    }
}

impl WireMessage {
    /// The payload that carries this message.
    pub fn encode_payload(&self, limits: WireLimits) -> (result: Result<Vec<u8>, WireError>)
        ensures
            match result {
                Ok(bytes) => encoded_payload(self@, limits) == Ok::<Seq<u8>, WireError>(bytes@),
                Err(error) => encoded_payload(self@, limits) == Err::<Seq<u8>, WireError>(error),
            },
    {
        reveal(WireMessage::model);
        limits.validate()?;
        let mut writer = PayloadWriter::new();
        match self {
            Self::Hello { capabilities } => {
                validate_capabilities(capabilities, limits.max_capabilities)?;
                writer.put_capabilities(capabilities);
            },
            Self::HelloAck { version, capabilities } => {
                validate_capabilities(capabilities, limits.max_capabilities)?;
                writer.put_u8(version.major);
                writer.put_u8(version.minor);
                writer.put_capabilities(capabilities);
                assert(seq![version.major] + seq![version.minor] =~= seq![
                    version.major,
                    version.minor,
                ]);
            },
            Self::Auth { kind, body } => {
                ensure_opaque_limit("authentication", body.len(), limits.max_opaque_payload)?;
                writer.put_u8(kind.to_wire());
                writer.put_bytes(body);
            },
            Self::SessionStart { session_id, transfer_id, role } => {
                writer.put_id(*session_id);
                writer.put_id(*transfer_id);
                writer.put_u8(role.to_wire());
            },
            Self::SessionAccept { session_id }
            | Self::ManifestAccept { session_id }
            | Self::Pause { session_id }
            | Self::Resume { session_id } => {
                writer.put_id(*session_id);
            },
            Self::ManifestOffer { session_id, file_count, total_size, body } => {
                ensure_opaque_limit("manifest", body.len(), limits.max_opaque_payload)?;
                writer.put_id(*session_id);
                writer.put_u64(*file_count);
                writer.put_u64(*total_size);
                writer.put_bytes(body);
            },
            Self::ChunkRequest { session_id, file_id, index, offset, length }
            | Self::ChunkAck { session_id, file_id, index, offset, length } => {
                writer.put_id(*session_id);
                writer.put_id(*file_id);
                writer.put_u64(*index);
                writer.put_u64(*offset);
                writer.put_u64(*length);
            },
            Self::ChunkData { session_id, file_id, index, offset, length, body } => {
                if *length > usize::MAX as u64 {
                    return Err(
                        WireError::MalformedMessage {
                            message_type: MessageType::ChunkData,
                            reason: "chunk length does not fit platform usize",
                        },
                    );
                }
                if *length as usize != body.len() {
                    return Err(
                        WireError::MalformedMessage {
                            message_type: MessageType::ChunkData,
                            reason: "chunk length does not match body length",
                        },
                    );
                }
                ensure_opaque_limit("chunk", body.len(), limits.max_opaque_payload)?;
                writer.put_id(*session_id);
                writer.put_id(*file_id);
                writer.put_u64(*index);
                writer.put_u64(*offset);
                writer.put_u64(*length);
                writer.put_bytes(body);
            },
            Self::Cancel { session_id, reason } | Self::Close { session_id, reason } => {
                writer.put_id(*session_id);
                writer.put_u16(*reason);
            },
            Self::Error { code } => {
                writer.put_u16(*code);
            },
        }
        assert(writer.bytes@ =~= payload_bytes(self@));
        if writer.bytes.len() > limits.max_frame_payload {
            return Err(
                WireError::FrameTooLarge {
                    length: writer.bytes.len(),
                    max: limits.max_frame_payload,
                },
            );
        }
        Ok(writer.bytes)
    }
}

} // verus!
