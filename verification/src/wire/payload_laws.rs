//! What encoding and decoding of payloads promise of each other.
use vstd::prelude::*;
use crate::wire::bytes::{
    be_bytes, be_value, lemma_be_bounds, lemma_be_bytes_len, lemma_be_bytes_of_value,
    lemma_be_value_bound, lemma_be_value_of_bytes,
};
use crate::wire::decode::{
    capabilities_at, offer_at, offers_at, opaque_at, parsed_message, u16_at, u32_at, u64_at,
};
use crate::wire::encode::{
    capabilities_bytes, capabilities_fault, content_fault, encoded_payload, offers_bytes,
    opaque_bytes, payload_bytes,
};
use crate::wire::message::MessageModel;
use crate::wire::types::{CapabilityOffer, MessageType, WireError, WireLimits};

verus! {

proof fn lemma_u16_written(b: Seq<u8>, at: int, value: u16, t: MessageType)
    requires
        0 <= at,
        at + 2 <= b.len() <= usize::MAX,
        b.subrange(at, at + 2) == be_bytes(value as nat, 2),
    ensures
        u16_at(b, at, t) == Ok::<u16, WireError>(value),
{
    lemma_be_bounds();
    lemma_be_value_of_bytes(value as nat, 2);
}

proof fn lemma_u32_written(b: Seq<u8>, at: int, value: u32, t: MessageType)
    requires
        0 <= at,
        at + 4 <= b.len() <= usize::MAX,
        b.subrange(at, at + 4) == be_bytes(value as nat, 4),
    ensures
        u32_at(b, at, t) == Ok::<u32, WireError>(value),
{
    lemma_be_bounds();
    lemma_be_value_of_bytes(value as nat, 4);
}

proof fn lemma_u64_written(b: Seq<u8>, at: int, value: u64, t: MessageType)
    requires
        0 <= at,
        at + 8 <= b.len() <= usize::MAX,
        b.subrange(at, at + 8) == be_bytes(value as nat, 8),
    ensures
        u64_at(b, at, t) == Ok::<u64, WireError>(value),
{
    lemma_be_bounds();
    lemma_be_value_of_bytes(value as nat, 8);
}

proof fn lemma_opaque_written(
    b: Seq<u8>,
    at: int,
    body: Seq<u8>,
    field: &'static str,
    max: usize,
    t: MessageType,
)
    requires
        0 <= at,
        body.len() <= max,
        body.len() <= u32::MAX,
        at + 4 + body.len() <= b.len() <= usize::MAX,
        b.subrange(at, at + 4 + body.len()) == opaque_bytes(body),
    ensures
        opaque_at(b, at, field, max, t) == Ok::<Seq<u8>, WireError>(body),
{
    lemma_be_bytes_len(body.len(), 4);
    let field_bytes = b.subrange(at, at + 4 + body.len());
    assert(b.subrange(at, at + 4) =~= field_bytes.subrange(0, 4));
    assert(opaque_bytes(body).subrange(0, 4) =~= be_bytes(body.len(), 4));
    assert(b.subrange(at + 4, at + 4 + body.len()) =~= field_bytes.subrange(
        4,
        4 + body.len() as int,
    ));
    assert(opaque_bytes(body).subrange(4, 4 + body.len() as int) =~= body);
    lemma_u32_written(b, at, body.len() as u32, t);
}

pub proof fn lemma_offers_bytes_len(offers: Seq<CapabilityOffer>)
    ensures
        offers_bytes(offers).len() == 3 * offers.len(),
    decreases offers.len(),
{
    if offers.len() > 0 {
        lemma_offers_bytes_len(offers.drop_last());
        lemma_be_bytes_len(offers.last().id as nat, 2);
    }
}

proof fn lemma_offers_written(b: Seq<u8>, at: int, offers: Seq<CapabilityOffer>, t: MessageType)
    requires
        0 <= at,
        at + 3 * offers.len() <= b.len() <= usize::MAX,
        b.subrange(at, at + 3 * offers.len()) == offers_bytes(offers),
    ensures
        offers_at(b, at, offers.len(), t) == Ok::<Seq<CapabilityOffer>, WireError>(offers),
    decreases offers.len(),
{
    if offers.len() > 0 {
        let earlier = offers.drop_last();
        let offer = offers.last();
        lemma_offers_bytes_len(earlier);
        lemma_be_bytes_len(offer.id as nat, 2);
        let n = 3 * earlier.len() as int;
        let all = offers_bytes(offers);
        assert(b.subrange(at, at + n) =~= all.subrange(0, n));
        assert(all.subrange(0, n) =~= offers_bytes(earlier));
        lemma_offers_written(b, at, earlier, t);
        assert(b.subrange(at + n, at + n + 2) =~= all.subrange(n, n + 2));
        assert(all.subrange(n, n + 2) =~= be_bytes(offer.id as nat, 2));
        lemma_u16_written(b, at + n, offer.id, t);
        assert(b[at + n + 2] == b.subrange(at, at + 3 * offers.len())[n + 2]);
        assert(offer_at(b, at + n, t) == Ok::<CapabilityOffer, WireError>(offer));
        assert(earlier.push(offer) =~= offers);
    } else {
        assert(offers =~= Seq::<CapabilityOffer>::empty());
    }
}

proof fn lemma_capabilities_written(
    b: Seq<u8>,
    at: int,
    offers: Seq<CapabilityOffer>,
    max: usize,
    t: MessageType,
)
    requires
        0 <= at,
        capabilities_fault(offers, max) is None,
        at + 2 + 3 * offers.len() <= b.len() <= usize::MAX,
        b.subrange(at, at + 2 + 3 * offers.len()) == capabilities_bytes(offers),
    ensures
        capabilities_at(b, at, max, t) == Ok::<Seq<CapabilityOffer>, WireError>(offers),
{
    lemma_be_bytes_len(offers.len(), 2);
    lemma_offers_bytes_len(offers);
    let n = 2 + 3 * offers.len() as int;
    let all = capabilities_bytes(offers);
    assert(b.subrange(at, at + 2) =~= all.subrange(0, 2));
    assert(all.subrange(0, 2) =~= be_bytes(offers.len(), 2));
    lemma_u16_written(b, at, offers.len() as u16, t);
    assert(b.subrange(at + 2, at + n) =~= all.subrange(2, n));
    assert(all.subrange(2, n) =~= offers_bytes(offers));
    lemma_offers_written(b, at + 2, offers, t);
}

/// Every message that has a payload is what that payload decodes to.
pub proof fn law_payload_round_trip(message: MessageModel, limits: WireLimits)
    requires
        message.well_formed(),
        encoded_payload(message, limits) is Ok,
    ensures
        encoded_payload(message, limits) == Ok::<Seq<u8>, WireError>(payload_bytes(message)),
        parsed_message(message.message_type(), payload_bytes(message), limits) == Ok::<
            MessageModel,
            WireError,
        >(message),
{
    reveal(parsed_message);
    let b = payload_bytes(message);
    let t = message.message_type();
    match message {
        MessageModel::Hello { capabilities } => {
            lemma_be_bytes_len(capabilities.len(), 2);
            lemma_offers_bytes_len(capabilities);
            assert(b.subrange(0, 2 + 3 * capabilities.len() as int) =~= b);
            lemma_capabilities_written(b, 0, capabilities, limits.max_capabilities, t);
        },
        MessageModel::HelloAck { version, capabilities } => {
            lemma_be_bytes_len(capabilities.len(), 2);
            lemma_offers_bytes_len(capabilities);
            assert(b.subrange(2, 4 + 3 * capabilities.len() as int) =~= capabilities_bytes(
                capabilities,
            ));
            lemma_capabilities_written(b, 2, capabilities, limits.max_capabilities, t);
        },
        MessageModel::Auth { kind, body } => {
            lemma_be_bytes_len(body.len(), 4);
            assert(b.subrange(1, 5 + body.len() as int) =~= opaque_bytes(body));
            lemma_opaque_written(b, 1, body, "authentication", limits.max_opaque_payload, t);
        },
        MessageModel::SessionStart { session_id, transfer_id, role } => {
            assert(b.subrange(0, 16) =~= session_id);
            assert(b.subrange(16, 32) =~= transfer_id);
        },
        MessageModel::SessionAccept { session_id }
        | MessageModel::ManifestAccept { session_id }
        | MessageModel::Pause { session_id }
        | MessageModel::Resume { session_id } => {
            assert(b.subrange(0, 16) =~= session_id);
        },
        MessageModel::ManifestOffer { session_id, file_count, total_size, body } => {
            lemma_be_bytes_len(file_count as nat, 8);
            lemma_be_bytes_len(total_size as nat, 8);
            lemma_be_bytes_len(body.len(), 4);
            assert(b.subrange(0, 16) =~= session_id);
            assert(b.subrange(16, 24) =~= be_bytes(file_count as nat, 8));
            assert(b.subrange(24, 32) =~= be_bytes(total_size as nat, 8));
            assert(b.subrange(32, 36 + body.len() as int) =~= opaque_bytes(body));
            lemma_u64_written(b, 16, file_count, t);
            lemma_u64_written(b, 24, total_size, t);
            lemma_opaque_written(b, 32, body, "manifest", limits.max_opaque_payload, t);
        },
        MessageModel::ChunkRequest { session_id, file_id, index, offset, length }
        | MessageModel::ChunkAck { session_id, file_id, index, offset, length } => {
            lemma_be_bytes_len(index as nat, 8);
            lemma_be_bytes_len(offset as nat, 8);
            lemma_be_bytes_len(length as nat, 8);
            assert(b.subrange(0, 16) =~= session_id);
            assert(b.subrange(16, 32) =~= file_id);
            assert(b.subrange(32, 40) =~= be_bytes(index as nat, 8));
            assert(b.subrange(40, 48) =~= be_bytes(offset as nat, 8));
            assert(b.subrange(48, 56) =~= be_bytes(length as nat, 8));
            lemma_u64_written(b, 32, index, t);
            lemma_u64_written(b, 40, offset, t);
            lemma_u64_written(b, 48, length, t);
        },
        MessageModel::ChunkData { session_id, file_id, index, offset, length, body } => {
            lemma_be_bytes_len(index as nat, 8);
            lemma_be_bytes_len(offset as nat, 8);
            lemma_be_bytes_len(length as nat, 8);
            lemma_be_bytes_len(body.len(), 4);
            assert(b.subrange(0, 16) =~= session_id);
            assert(b.subrange(16, 32) =~= file_id);
            assert(b.subrange(32, 40) =~= be_bytes(index as nat, 8));
            assert(b.subrange(40, 48) =~= be_bytes(offset as nat, 8));
            assert(b.subrange(48, 56) =~= be_bytes(length as nat, 8));
            assert(b.subrange(56, 60 + body.len() as int) =~= opaque_bytes(body));
            lemma_u64_written(b, 32, index, t);
            lemma_u64_written(b, 40, offset, t);
            lemma_u64_written(b, 48, length, t);
            lemma_opaque_written(b, 56, body, "chunk", limits.max_opaque_payload, t);
        },
        MessageModel::Cancel { session_id, reason }
        | MessageModel::Close { session_id, reason } => {
            lemma_be_bytes_len(reason as nat, 2);
            assert(b.subrange(0, 16) =~= session_id);
            assert(b.subrange(16, 18) =~= be_bytes(reason as nat, 2));
            lemma_u16_written(b, 16, reason, t);
        },
        MessageModel::Error { code } => {
            lemma_be_bytes_len(code as nat, 2);
            assert(b.subrange(0, 2) =~= be_bytes(code as nat, 2));
            lemma_u16_written(b, 0, code, t);
        },
    }
}

proof fn lemma_uint_read(b: Seq<u8>, at: int, width: int)
    requires
        0 <= at,
        0 <= width,
        at + width <= b.len(),
    ensures
        be_bytes(be_value(b.subrange(at, at + width)), width as nat) == b.subrange(at, at + width),
        width == 2 ==> be_value(b.subrange(at, at + width)) <= u16::MAX,
        width == 4 ==> be_value(b.subrange(at, at + width)) <= u32::MAX,
        width == 8 ==> be_value(b.subrange(at, at + width)) <= u64::MAX,
{
    lemma_be_bytes_of_value(b.subrange(at, at + width));
    lemma_be_value_bound(b.subrange(at, at + width));
    lemma_be_bounds();
}

proof fn lemma_opaque_read(b: Seq<u8>, at: int, field: &'static str, max: usize, t: MessageType)
    requires
        0 <= at,
        opaque_at(b, at, field, max, t) is Ok,
    ensures
        ({
            let body = opaque_at(b, at, field, max, t)->Ok_0;
            &&& body.len() <= max
            &&& body.len() <= u32::MAX
            &&& at + 4 + body.len() <= b.len()
            &&& b.subrange(at, at + 4 + body.len()) == opaque_bytes(body)
        }),
{
    let body = opaque_at(b, at, field, max, t)->Ok_0;
    lemma_uint_read(b, at, 4);
    assert(b.subrange(at, at + 4 + body.len()) =~= b.subrange(at, at + 4) + body);
}

proof fn lemma_offers_read(b: Seq<u8>, at: int, count: nat, t: MessageType)
    requires
        0 <= at,
        at <= b.len(),
        offers_at(b, at, count, t) is Ok,
    ensures
        ({
            let offers = offers_at(b, at, count, t)->Ok_0;
            &&& offers.len() == count
            &&& at + 3 * count <= b.len()
            &&& b.subrange(at, at + 3 * count) == offers_bytes(offers)
        }),
    decreases count,
{
    let offers = offers_at(b, at, count, t)->Ok_0;
    if count > 0 {
        lemma_offers_read(b, at, (count - 1) as nat, t);
        let earlier = offers_at(b, at, (count - 1) as nat, t)->Ok_0;
        assert(offers.drop_last() =~= earlier);
        let start = at + 3 * (count - 1);
        lemma_uint_read(b, start, 2);
        assert(b.subrange(at, at + 3 * count) =~= b.subrange(at, start) + b.subrange(
            start,
            start + 2,
        ) + seq![b[start + 2]]);
    } else {
        assert(b.subrange(at, at + 3 * count) =~= offers_bytes(offers));
    }
}

proof fn lemma_capabilities_read(b: Seq<u8>, at: int, max: usize, t: MessageType)
    requires
        0 <= at,
        capabilities_at(b, at, max, t) is Ok,
    ensures
        ({
            let offers = capabilities_at(b, at, max, t)->Ok_0;
            &&& capabilities_fault(offers, max) is None
            &&& at + 2 + 3 * offers.len() <= b.len()
            &&& b.subrange(at, at + 2 + 3 * offers.len()) == capabilities_bytes(offers)
        }),
{
    let offers = capabilities_at(b, at, max, t)->Ok_0;
    lemma_uint_read(b, at, 2);
    let count = u16_at(b, at, t)->Ok_0;
    lemma_offers_read(b, at + 2, count as nat, t);
    assert(b.subrange(at, at + 2 + 3 * offers.len()) =~= b.subrange(at, at + 2) + b.subrange(
        at + 2,
        at + 2 + 3 * offers.len(),
    ));
}

/// A payload that decodes is the one payload of its message: no message has two encodings.
#[verifier::rlimit(60)]
#[verifier::spinoff_prover]
pub proof fn law_payload_canonical(t: MessageType, b: Seq<u8>, limits: WireLimits)
    requires
        parsed_message(t, b, limits) is Ok,
    ensures
        ({
            let message = parsed_message(t, b, limits)->Ok_0;
            &&& message.well_formed()
            &&& message.message_type() == t
            &&& payload_bytes(message) == b
            &&& content_fault(message, limits) is None
        }),
{
    reveal(parsed_message);
    let message = parsed_message(t, b, limits)->Ok_0;
    match t {
        MessageType::Hello => {
            lemma_capabilities_read(b, 0, limits.max_capabilities, t);
            assert(b.subrange(0, b.len() as int) =~= b);
        },
        MessageType::HelloAck => {
            lemma_capabilities_read(b, 2, limits.max_capabilities, t);
            assert(b =~= seq![b[0], b[1]] + b.subrange(2, b.len() as int));
        },
        MessageType::Auth => {
            lemma_opaque_read(b, 1, "authentication", limits.max_opaque_payload, t);
            assert(b =~= seq![b[0]] + b.subrange(1, b.len() as int));
        },
        MessageType::SessionStart => {
            assert(b =~= b.subrange(0, 16) + b.subrange(16, 32) + seq![b[32]]);
        },
        MessageType::SessionAccept
        | MessageType::ManifestAccept
        | MessageType::Pause
        | MessageType::Resume => {
            assert(b =~= b.subrange(0, 16));
        },
        MessageType::ManifestOffer => {
            lemma_uint_read(b, 16, 8);
            lemma_uint_read(b, 24, 8);
            lemma_opaque_read(b, 32, "manifest", limits.max_opaque_payload, t);
            assert(b =~= b.subrange(0, 16) + b.subrange(16, 24) + b.subrange(24, 32) + b.subrange(
                32,
                b.len() as int,
            ));
        },
        MessageType::ChunkRequest | MessageType::ChunkAck => {
            lemma_uint_read(b, 32, 8);
            lemma_uint_read(b, 40, 8);
            lemma_uint_read(b, 48, 8);
            assert(b =~= b.subrange(0, 16) + b.subrange(16, 32) + b.subrange(32, 40) + b.subrange(
                40,
                48,
            ) + b.subrange(48, 56));
        },
        MessageType::ChunkData => {
            lemma_uint_read(b, 32, 8);
            lemma_uint_read(b, 40, 8);
            lemma_uint_read(b, 48, 8);
            lemma_opaque_read(b, 56, "chunk", limits.max_opaque_payload, t);
            assert(b =~= b.subrange(0, 16) + b.subrange(16, 32) + b.subrange(32, 40) + b.subrange(
                40,
                48,
            ) + b.subrange(48, 56) + b.subrange(56, b.len() as int));
        },
        MessageType::Cancel | MessageType::Close => {
            lemma_uint_read(b, 16, 2);
            assert(b =~= b.subrange(0, 16) + b.subrange(16, 18));
        },
        MessageType::Error => {
            lemma_uint_read(b, 0, 2);
            assert(b =~= b.subrange(0, 2));
        },
    }
}

} // verus!
