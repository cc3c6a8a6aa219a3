//! Which byte of a frame says what, which messages can be sent, and which frames are refused.
use vstd::prelude::*;
use crate::wire::bytes::{
    be_bytes, be_value, lemma_be_bounds, lemma_be_bytes_len, lemma_be_value_of_bytes,
};
use crate::wire::codec::{encoded_frame, message_header, parsed_frame, WireCodec};
use crate::wire::encode::{
    encoded_payload, offers_bytes, payload_bytes,
};
use crate::wire::frame::{header_bytes, FrameHeader, PayloadModel};
use crate::wire::message::MessageModel;
use crate::wire::payload_laws::lemma_offers_bytes_len;
use crate::wire::types::{
    AuthMessageKind, CapabilityOffer, KnownCapability, MessageClass, MessageType, WireError,
    WireLimits, WireRole, WireVersion,
};

verus! {

/// The number in the two bytes at a place, the first byte for the most.
pub open spec fn two_bytes(b: Seq<u8>, at: int) -> int {
    b[at] * 256 + b[at + 1]
}

pub open spec fn four_bytes(b: Seq<u8>, at: int) -> int {
    ((b[at] * 256 + b[at + 1]) * 256 + b[at + 2]) * 256 + b[at + 3]
}

pub open spec fn eight_bytes(b: Seq<u8>, at: int) -> int {
    four_bytes(b, at) * 0x1_0000_0000 + four_bytes(b, at + 4)
}

proof fn lemma_two(b: Seq<u8>)
    requires
        b.len() == 2,
    ensures
        be_value(b) == two_bytes(b, 0),
{
    reveal_with_fuel(be_value, 3);
    assert(b.drop_last().drop_last() =~= Seq::<u8>::empty());
}

proof fn lemma_four(b: Seq<u8>)
    requires
        b.len() == 4,
    ensures
        be_value(b) == four_bytes(b, 0),
{
    reveal_with_fuel(be_value, 5);
    assert(b.drop_last().drop_last().drop_last().drop_last() =~= Seq::<u8>::empty());
}

proof fn lemma_eight(b: Seq<u8>)
    requires
        b.len() == 8,
    ensures
        be_value(b) == eight_bytes(b, 0),
{
    reveal_with_fuel(be_value, 5);
    let high = b.take(4);
    assert(b.drop_last().drop_last().drop_last().drop_last() =~= high);
    lemma_four(high);
}

proof fn lemma_written(b: Seq<u8>, at: int, value: nat, width: int)
    requires
        0 <= at,
        width == 2 || width == 4 || width == 8,
        at + width <= b.len(),
        b.subrange(at, at + width) == be_bytes(value, width as nat),
        width == 2 ==> value <= u16::MAX,
        width == 4 ==> value <= u32::MAX,
        width == 8 ==> value <= u64::MAX,
    ensures
        width == 2 ==> two_bytes(b, at) == value,
        width == 4 ==> four_bytes(b, at) == value,
        width == 8 ==> eight_bytes(b, at) == value,
{
    lemma_be_bounds();
    lemma_be_value_of_bytes(value, width as nat);
    let part = b.subrange(at, at + width);
    if width == 2 {
        lemma_two(part);
    } else if width == 4 {
        lemma_four(part);
    } else {
        lemma_eight(part);
    }
}

/// A header is 28 bytes: the letters `DRFT`, the version, the flags, the type of the message, and
/// then the length of the payload, the sequence number and the correlation number.
pub proof fn law_header_layout(header: FrameHeader)
    ensures
        ({
            let b = header_bytes(header);
            &&& b.len() == 28
            &&& b[0] == 'D' as u8 && b[1] == 'R' as u8 && b[2] == 'F' as u8 && b[3] == 'T' as u8
            &&& b[4] == header.version.major && b[5] == header.version.minor
            &&& b[6] == header.flags && b[7] == header.message_type
            &&& four_bytes(b, 8) == header.payload_len
            &&& eight_bytes(b, 12) == header.sequence
            &&& eight_bytes(b, 20) == header.correlation_id
        }),
{
    let b = header_bytes(header);
    lemma_be_bytes_len(header.payload_len as nat, 4);
    lemma_be_bytes_len(header.sequence as nat, 8);
    lemma_be_bytes_len(header.correlation_id as nat, 8);
    assert(b.subrange(8, 12) =~= be_bytes(header.payload_len as nat, 4));
    assert(b.subrange(12, 20) =~= be_bytes(header.sequence as nat, 8));
    assert(b.subrange(20, 28) =~= be_bytes(header.correlation_id as nat, 8));
    lemma_written(b, 8, header.payload_len as nat, 4);
    lemma_written(b, 12, header.sequence as nat, 8);
    lemma_written(b, 20, header.correlation_id as nat, 8);
}

/// The number of each kind of message.
pub proof fn law_message_numbers(message: MessageModel)
    ensures
        message is Hello <==> message.message_type().code() == 1,
        message is HelloAck <==> message.message_type().code() == 2,
        message is Auth <==> message.message_type().code() == 3,
        message is SessionStart <==> message.message_type().code() == 4,
        message is SessionAccept <==> message.message_type().code() == 5,
        message is ManifestOffer <==> message.message_type().code() == 6,
        message is ManifestAccept <==> message.message_type().code() == 7,
        message is ChunkRequest <==> message.message_type().code() == 8,
        message is ChunkData <==> message.message_type().code() == 9,
        message is ChunkAck <==> message.message_type().code() == 10,
        message is Pause <==> message.message_type().code() == 11,
        message is Resume <==> message.message_type().code() == 12,
        message is Cancel <==> message.message_type().code() == 13,
        message is Close <==> message.message_type().code() == 14,
        message is Error <==> message.message_type().code() == 15,
{
}

/// An offer takes three bytes: its number, and whether it is required.
pub proof fn law_offers_layout(offers: Seq<CapabilityOffer>, at: int)
    requires
        0 <= at < offers.len(),
    ensures
        offers_bytes(offers).len() == 3 * offers.len(),
        two_bytes(offers_bytes(offers), 3 * at) == offers[at].id,
        offers_bytes(offers)[3 * at + 2] == (if offers[at].required {
            1u8
        } else {
            0u8
        }),
    decreases offers.len(),
{
    let b = offers_bytes(offers);
    let earlier = offers_bytes(offers.drop_last());
    lemma_offers_bytes_len(offers);
    lemma_offers_bytes_len(offers.drop_last());
    lemma_be_bytes_len(offers.last().id as nat, 2);
    if at < offers.len() - 1 {
        law_offers_layout(offers.drop_last(), at);
        assert(b[3 * at] == earlier[3 * at]);
        assert(b[3 * at + 1] == earlier[3 * at + 1]);
        assert(b[3 * at + 2] == earlier[3 * at + 2]);
    } else {
        assert(b.subrange(3 * at, 3 * at + 2) =~= be_bytes(offers.last().id as nat, 2));
        lemma_written(b, 3 * at, offers.last().id as nat, 2);
    }
}

/// Where a payload says what: identifiers take sixteen bytes, numbers stand with their greatest byte
/// first, and a body comes after its length.
#[verifier::spinoff_prover]
#[verifier::rlimit(40)]
pub proof fn law_payload_layout(message: MessageModel)
    requires
        message.well_formed(),
    ensures
        ({
            let b = payload_bytes(message);
            match message {
                MessageModel::Hello { capabilities } => {
                    &&& capabilities.len() <= u16::MAX ==> two_bytes(b, 0) == capabilities.len()
                    &&& b.skip(2) == offers_bytes(capabilities)
                },
                MessageModel::HelloAck { version, capabilities } => {
                    &&& b[0] == version.major && b[1] == version.minor
                    &&& capabilities.len() <= u16::MAX ==> two_bytes(b, 2) == capabilities.len()
                    &&& b.skip(4) == offers_bytes(capabilities)
                },
                MessageModel::Auth { kind, body } => {
                    &&& b[0] == (match kind {
                        AuthMessageKind::Init => 1u8,
                        AuthMessageKind::Response => 2u8,
                        AuthMessageKind::Confirm => 3u8,
                    })
                    &&& body.len() <= u32::MAX ==> four_bytes(b, 1) == body.len()
                    &&& b.skip(5) == body
                },
                MessageModel::SessionStart { session_id, transfer_id, role } => {
                    &&& b.len() == 33
                    &&& b.take(16) == session_id
                    &&& b.subrange(16, 32) == transfer_id
                    &&& b[32] == (match role {
                        WireRole::Sender => 1u8,
                        WireRole::Receiver => 2u8,
                    })
                },
                MessageModel::SessionAccept { session_id } => b == session_id,
                MessageModel::ManifestAccept { session_id } => b == session_id,
                MessageModel::Pause { session_id } => b == session_id,
                MessageModel::Resume { session_id } => b == session_id,
                MessageModel::ManifestOffer { session_id, file_count, total_size, body } => {
                    &&& b.take(16) == session_id
                    &&& eight_bytes(b, 16) == file_count
                    &&& eight_bytes(b, 24) == total_size
                    &&& body.len() <= u32::MAX ==> four_bytes(b, 32) == body.len()
                    &&& b.skip(36) == body
                },
                MessageModel::ChunkRequest { session_id, file_id, index, offset, length } => {
                    &&& b.len() == 56
                    &&& b.take(16) == session_id
                    &&& b.subrange(16, 32) == file_id
                    &&& eight_bytes(b, 32) == index
                    &&& eight_bytes(b, 40) == offset
                    &&& eight_bytes(b, 48) == length
                },
                MessageModel::ChunkAck { session_id, file_id, index, offset, length } => {
                    &&& b.len() == 56
                    &&& b.take(16) == session_id
                    &&& b.subrange(16, 32) == file_id
                    &&& eight_bytes(b, 32) == index
                    &&& eight_bytes(b, 40) == offset
                    &&& eight_bytes(b, 48) == length
                },
                MessageModel::ChunkData { session_id, file_id, index, offset, length, body } => {
                    &&& b.take(16) == session_id
                    &&& b.subrange(16, 32) == file_id
                    &&& eight_bytes(b, 32) == index
                    &&& eight_bytes(b, 40) == offset
                    &&& eight_bytes(b, 48) == length
                    &&& body.len() <= u32::MAX ==> four_bytes(b, 56) == body.len()
                    &&& b.skip(60) == body
                },
                MessageModel::Cancel { session_id, reason } => {
                    &&& b.len() == 18
                    &&& b.take(16) == session_id
                    &&& two_bytes(b, 16) == reason
                },
                MessageModel::Close { session_id, reason } => {
                    &&& b.len() == 18
                    &&& b.take(16) == session_id
                    &&& two_bytes(b, 16) == reason
                },
                MessageModel::Error { code } => b.len() == 2 && two_bytes(b, 0) == code,
            }
        }),
{
    let b = payload_bytes(message);
    match message {
        MessageModel::Hello { capabilities } => {
            lemma_be_bytes_len(capabilities.len(), 2);
            assert(b.subrange(0, 2) =~= be_bytes(capabilities.len(), 2));
            assert(b.skip(2) =~= offers_bytes(capabilities));
            if capabilities.len() <= u16::MAX {
                lemma_written(b, 0, capabilities.len(), 2);
            }
        },
        MessageModel::HelloAck { version, capabilities } => {
            lemma_be_bytes_len(capabilities.len(), 2);
            assert(b.subrange(2, 4) =~= be_bytes(capabilities.len(), 2));
            assert(b.skip(4) =~= offers_bytes(capabilities));
            if capabilities.len() <= u16::MAX {
                lemma_written(b, 2, capabilities.len(), 2);
            }
        },
        MessageModel::Auth { kind, body } => {
            lemma_be_bytes_len(body.len(), 4);
            assert(b.subrange(1, 5) =~= be_bytes(body.len(), 4));
            assert(b.skip(5) =~= body);
            if body.len() <= u32::MAX {
                lemma_written(b, 1, body.len(), 4);
            }
        },
        MessageModel::SessionStart { session_id, transfer_id, role } => {
            assert(b.take(16) =~= session_id);
            assert(b.subrange(16, 32) =~= transfer_id);
        },
        MessageModel::ManifestOffer { session_id, file_count, total_size, body } => {
            lemma_be_bytes_len(file_count as nat, 8);
            lemma_be_bytes_len(total_size as nat, 8);
            lemma_be_bytes_len(body.len(), 4);
            assert(b.take(16) =~= session_id);
            assert(b.subrange(16, 24) =~= be_bytes(file_count as nat, 8));
            assert(b.subrange(24, 32) =~= be_bytes(total_size as nat, 8));
            assert(b.subrange(32, 36) =~= be_bytes(body.len(), 4));
            assert(b.skip(36) =~= body);
            lemma_written(b, 16, file_count as nat, 8);
            lemma_written(b, 24, total_size as nat, 8);
            if body.len() <= u32::MAX {
                lemma_written(b, 32, body.len(), 4);
            }
        },
        MessageModel::ChunkRequest { session_id, file_id, index, offset, length }
        | MessageModel::ChunkAck { session_id, file_id, index, offset, length } => {
            lemma_chunk_layout(b, session_id, file_id, index, offset, length, Seq::empty());
        },
        MessageModel::ChunkData { session_id, file_id, index, offset, length, body } => {
            let tail = be_bytes(body.len(), 4) + body;
            lemma_be_bytes_len(body.len(), 4);
            assert(b =~= session_id + file_id + be_bytes(index as nat, 8) + be_bytes(
                offset as nat,
                8,
            ) + be_bytes(length as nat, 8) + tail);
            lemma_chunk_layout(b, session_id, file_id, index, offset, length, tail);
            assert(b.subrange(56, 60) =~= be_bytes(body.len(), 4));
            assert(b.skip(60) =~= body);
            if body.len() <= u32::MAX {
                lemma_written(b, 56, body.len(), 4);
            }
        },
        MessageModel::Cancel { session_id, reason } | MessageModel::Close { session_id, reason } => {
            lemma_be_bytes_len(reason as nat, 2);
            assert(b.take(16) =~= session_id);
            assert(b.subrange(16, 18) =~= be_bytes(reason as nat, 2));
            lemma_written(b, 16, reason as nat, 2);
        },
        MessageModel::Error { code } => {
            lemma_be_bytes_len(code as nat, 2);
            assert(b.subrange(0, 2) =~= be_bytes(code as nat, 2));
            lemma_written(b, 0, code as nat, 2);
        },
        _ => {},
    }
}

proof fn lemma_chunk_layout(
    b: Seq<u8>,
    session_id: Seq<u8>,
    file_id: Seq<u8>,
    index: u64,
    offset: u64,
    length: u64,
    tail: Seq<u8>,
)
    requires
        session_id.len() == 16,
        file_id.len() == 16,
        b == session_id + file_id + be_bytes(index as nat, 8) + be_bytes(offset as nat, 8)
            + be_bytes(length as nat, 8) + tail,
    ensures
        b.len() == 56 + tail.len(),
        b.take(16) == session_id,
        b.subrange(16, 32) == file_id,
        eight_bytes(b, 32) == index,
        eight_bytes(b, 40) == offset,
        eight_bytes(b, 48) == length,
        b.skip(56) == tail,
{
    lemma_be_bytes_len(index as nat, 8);
    lemma_be_bytes_len(offset as nat, 8);
    lemma_be_bytes_len(length as nat, 8);
    assert(b.take(16) =~= session_id);
    assert(b.subrange(16, 32) =~= file_id);
    assert(b.subrange(32, 40) =~= be_bytes(index as nat, 8));
    assert(b.subrange(40, 48) =~= be_bytes(offset as nat, 8));
    assert(b.subrange(48, 56) =~= be_bytes(length as nat, 8));
    assert(b.skip(56) =~= tail);
    lemma_written(b, 32, index as nat, 8);
    lemma_written(b, 40, offset as nat, 8);
    lemma_written(b, 48, length as nat, 8);
}

/// How many bytes the payload of a message takes.
pub open spec fn payload_length(message: MessageModel) -> nat {
    match message {
        MessageModel::Hello { capabilities } => 2 + 3 * capabilities.len(),
        MessageModel::HelloAck { capabilities, .. } => 4 + 3 * capabilities.len(),
        MessageModel::Auth { body, .. } => 5 + body.len(),
        MessageModel::SessionStart { .. } => 33,
        MessageModel::SessionAccept { .. } => 16,
        MessageModel::ManifestOffer { body, .. } => 36 + body.len(),
        MessageModel::ManifestAccept { .. } => 16,
        MessageModel::ChunkRequest { .. } => 56,
        MessageModel::ChunkData { body, .. } => 60 + body.len(),
        MessageModel::ChunkAck { .. } => 56,
        MessageModel::Pause { .. } => 16,
        MessageModel::Resume { .. } => 16,
        MessageModel::Cancel { .. } => 18,
        MessageModel::Close { .. } => 18,
        MessageModel::Error { .. } => 2,
    }
}

/// Each capability is offered once, and only known ones are required.
pub open spec fn offers_sound(offers: Seq<CapabilityOffer>) -> bool {
    &&& forall|i: int, j: int|
        0 <= i < j < offers.len() ==> (#[trigger] offers[i]).id != (#[trigger] offers[j]).id
    &&& forall|i: int|
        0 <= i < offers.len() && (#[trigger] offers[i]).required ==> 1 <= offers[i].id <= 4
}

proof fn lemma_offers_sound(offers: Seq<CapabilityOffer>)
    ensures
        crate::wire::encode::offers_fault(offers) is None <==> offers_sound(offers),
    decreases offers.len(),
{
    if offers.len() > 0 {
        let earlier = offers.drop_last();
        let last = offers.len() - 1;
        lemma_offers_sound(earlier);
        if crate::wire::encode::offers_fault(offers) is None {
            assert forall|i: int, j: int| 0 <= i < j < offers.len() implies (
            #[trigger] offers[i]).id != (#[trigger] offers[j]).id by {
                assert(earlier[i] == offers[i]);
                if j < last {
                    assert(earlier[j] == offers[j]);
                }
            }
            assert forall|i: int| 0 <= i < offers.len() && (#[trigger] offers[i]).required implies 1
                <= offers[i].id <= 4 by {
                if i < last {
                    assert(earlier[i] == offers[i]);
                }
            }
        }
        if offers_sound(offers) {
            assert forall|i: int, j: int| 0 <= i < j < earlier.len() implies (
            #[trigger] earlier[i]).id != (#[trigger] earlier[j]).id by {
                assert(offers[i].id != offers[j].id);
            }
            assert forall|i: int| 0 <= i < earlier.len() && (#[trigger] earlier[i]).required implies 1
                <= earlier[i].id <= 4 by {
                assert(offers[i].required);
            }
            assert forall|k: int| 0 <= k < earlier.len() implies earlier[k].id != offers[last].id by {
                assert(offers[k].id != offers[last].id);
            }
            assert(offers[last].required ==> 1 <= offers[last].id <= 4);
        }
    }
}

/// A message can be sent exactly if the limits make sense and it keeps to them: as many
/// capabilities as may be, each offered once and none required that is not known; a body no longer
/// than may be; a chunk as long as it says; and all of it within the longest payload.
pub proof fn law_messages_within_limits_are_sent(message: MessageModel, limits: WireLimits)
    requires
        message.well_formed(),
    ensures
        encoded_payload(message, limits) is Ok <==> {
            &&& limits.max_frame_payload <= 0xffff_ffff
            &&& limits.max_opaque_payload <= limits.max_frame_payload
            &&& 28 + limits.max_frame_payload <= limits.max_buffered_bytes
                || limits.max_buffered_bytes == usize::MAX
            &&& payload_length(message) <= limits.max_frame_payload
            &&& match message {
                MessageModel::Hello { capabilities } => capabilities.len() <= limits.max_capabilities
                    && capabilities.len() <= 0xffff && offers_sound(capabilities),
                MessageModel::HelloAck { capabilities, .. } => capabilities.len()
                    <= limits.max_capabilities && capabilities.len() <= 0xffff && offers_sound(
                    capabilities,
                ),
                MessageModel::Auth { body, .. } => body.len() <= limits.max_opaque_payload,
                MessageModel::ManifestOffer { body, .. } => body.len() <= limits.max_opaque_payload,
                MessageModel::ChunkData { length, body, .. } => length == body.len() && body.len()
                    <= limits.max_opaque_payload,
                _ => true,
            }
        },
        payload_bytes(message).len() == payload_length(message),
{
    let b = payload_bytes(message);
    law_payload_layout(message);
    match message {
        MessageModel::Hello { capabilities } => {
            lemma_offers_sound(capabilities);
            lemma_offers_bytes_len(capabilities);
            lemma_be_bytes_len(capabilities.len(), 2);
        },
        MessageModel::HelloAck { capabilities, .. } => {
            lemma_offers_sound(capabilities);
            lemma_offers_bytes_len(capabilities);
            lemma_be_bytes_len(capabilities.len(), 2);
        },
        MessageModel::Auth { body, .. } => {
            lemma_be_bytes_len(body.len(), 4);
        },
        MessageModel::ManifestOffer { file_count, total_size, body, .. } => {
            lemma_be_bytes_len(body.len(), 4);
            lemma_be_bytes_len(file_count as nat, 8);
            lemma_be_bytes_len(total_size as nat, 8);
        },
        MessageModel::ChunkData { index, offset, length, body, .. } => {
            lemma_be_bytes_len(body.len(), 4);
            lemma_be_bytes_len(index as nat, 8);
            lemma_be_bytes_len(offset as nat, 8);
            lemma_be_bytes_len(length as nat, 8);
        },
        _ => {},
    }
}

/// What begins otherwise than `DRFT`, comes from another major version, sets a flag or announces
/// too long a payload is refused, whatever follows; what is cut short is waited for, and how many
/// bytes are missing is told.
pub proof fn law_frames_are_refused_for_cause(codec: WireCodec, b: Seq<u8>)
    requires
        codec.limits_spec().valid(),
        b.len() <= usize::MAX,
    ensures
        b.len() < 28 ==> parsed_frame(codec, b) == Err::<
            (crate::wire::frame::FrameModel, nat),
            WireError,
        >(WireError::Incomplete { needed: (28 - b.len()) as usize }),
        b.len() >= 28 ==> {
            let found = parsed_frame(codec, b);
            let version = WireVersion { major: b[4], minor: b[5] };
            let length = four_bytes(b, 8);
            if !(b[0] == 'D' as u8 && b[1] == 'R' as u8 && b[2] == 'F' as u8 && b[3] == 'T' as u8) {
                found matches Err(error) && error == WireError::InvalidMagic
            } else if b[4] != codec.version_spec().major {
                found matches Err(error) && error == (WireError::UnsupportedVersion {
                    found: version,
                    supported_major: codec.version_spec().major,
                })
            } else if b[6] != 0 {
                found matches Err(error) && error == (WireError::ReservedFlags { flags: b[6] })
            } else if length > codec.limits_spec().max_frame_payload {
                found matches Err(error) && error is FrameTooLarge
            } else if b.len() < 28 + length && 28 + length <= usize::MAX {
                found matches Err(error) && error == (WireError::Incomplete {
                    needed: (28 + length - b.len()) as usize,
                })
            } else {
                true
            }
        },
{
    reveal(parsed_frame);
    if b.len() >= 28 {
        let start = b.subrange(0, 4);
        let magic = crate::wire::frame::magic();
        assert(start[0] == b[0] && start[1] == b[1] && start[2] == b[2] && start[3] == b[3]);
        if b[0] == 'D' as u8 && b[1] == 'R' as u8 && b[2] == 'F' as u8 && b[3] == 'T' as u8 {
            assert(start =~= magic);
        } else {
            assert(start != magic) by {
                assert(magic[0] == 0x44 && magic[1] == 0x52 && magic[2] == 0x46 && magic[3] == 0x54);
            }
        }
        let four = b.subrange(8, 12);
        lemma_four(four);
        assert(four_bytes(four, 0) == four_bytes(b, 8));
        crate::wire::bytes::lemma_be_value_bound(four);
        lemma_be_bounds();
    }
}

/// What the type byte of a complete frame decides: a known type is decoded, one that carries the
/// optional bit without being known is kept as it came, and everything else is refused.
pub proof fn law_types_decide_about_frames(codec: WireCodec, b: Seq<u8>)
    requires
        codec.limits_spec().valid(),
        28 <= b.len() <= usize::MAX,
        b[0] == 'D' as u8 && b[1] == 'R' as u8 && b[2] == 'F' as u8 && b[3] == 'T' as u8,
        b[4] == codec.version_spec().major,
        b[6] == 0,
        four_bytes(b, 8) <= codec.limits_spec().max_frame_payload,
        28 + four_bytes(b, 8) <= b.len(),
    ensures
        ({
            let found = parsed_frame(codec, b);
            let end = 28 + four_bytes(b, 8);
            if b[7] == 0 || 16 <= b[7] < 128 {
                found matches Err(error) && error == (WireError::UnknownMandatoryMessage {
                    message_type: b[7],
                })
            } else if 129 <= b[7] <= 143 {
                found matches Err(error) && error is KnownMessageMarkedOptional
            } else if b[7] >= 128 {
                found matches Ok((frame, consumed)) && consumed == end && frame.payload == (
                PayloadModel::UnknownOptional {
                    message_type: b[7],
                    body: b.subrange(28, end),
                })
            } else {
                found matches Ok((frame, consumed)) ==> consumed == end && frame.payload is Message
                    && frame.payload->Message_0.message_type().code() == b[7]
            }
        }),
{
    law_frames_are_refused_for_cause(codec, b);
    reveal(parsed_frame);
    let four = b.subrange(8, 12);
    lemma_four(four);
    assert(four_bytes(four, 0) == four_bytes(b, 8));
    crate::wire::bytes::lemma_be_value_bound(four);
    lemma_be_bounds();
    assert(b.subrange(0, 4) =~= crate::wire::frame::magic());
    if 1 <= b[7] <= 15 {
        let t = crate::wire::frame::type_of_code(b[7] as int)->Some_0;
        lemma_some_type(b[7]);
        let payload = b.subrange(28, 28 + four_bytes(b, 8));
        if crate::wire::decode::parsed_message(t, payload, codec.limits_spec()) is Ok {
            crate::wire::payload_laws::law_payload_canonical(t, payload, codec.limits_spec());
        }
    }
}

proof fn lemma_some_type(code: u8)
    requires
        1 <= code <= 15,
    ensures
        crate::wire::frame::type_of_code(code as int)->Some_0.code() == code,
{
    crate::wire::stream_laws::lemma_code_of_type(code as int);
}

/// Two sides agree exactly if their major versions are the same, on the same version whoever asks,
/// and on none that either of them is too old for.
pub proof fn law_versions_are_agreed_on(mine: WireVersion, theirs: WireVersion)
    ensures
        mine.negotiated(theirs) is Ok <==> mine.major == theirs.major,
        mine.negotiated(theirs) matches Ok(agreed) ==> {
            &&& theirs.negotiated(mine) == Ok::<WireVersion, WireError>(agreed)
            &&& agreed.major == mine.major
            &&& agreed.minor <= mine.minor && agreed.minor <= theirs.minor
            &&& agreed.minor == mine.minor || agreed.minor == theirs.minor
        },
{
}

/// The numbers of the sides, of the steps of authentication and of the capabilities, and what each
/// type of message is for.
pub proof fn law_numbers_and_classes(id: u16)
    ensures
        WireRole::Sender.code() == 1,
        WireRole::Receiver.code() == 2,
        AuthMessageKind::Init.code() == 1,
        AuthMessageKind::Response.code() == 2,
        AuthMessageKind::Confirm.code() == 3,
        KnownCapability::EncryptedRecords.number() == 1,
        KnownCapability::Pause.number() == 2,
        KnownCapability::Resume.number() == 3,
        KnownCapability::Relay.number() == 4,
        KnownCapability::knows(id) <==> id == 1 || id == 2 || id == 3 || id == 4,
        MessageType::Hello.class_of() == MessageClass::Negotiation,
        MessageType::HelloAck.class_of() == MessageClass::Negotiation,
        MessageType::ManifestOffer.class_of() == MessageClass::Negotiation,
        MessageType::ManifestAccept.class_of() == MessageClass::Negotiation,
        MessageType::Auth.class_of() == MessageClass::Authentication,
        MessageType::SessionStart.class_of() == MessageClass::Session,
        MessageType::SessionAccept.class_of() == MessageClass::Session,
        MessageType::ChunkRequest.class_of() == MessageClass::Data,
        MessageType::ChunkData.class_of() == MessageClass::Data,
        MessageType::ChunkAck.class_of() == MessageClass::Data,
        MessageType::Pause.class_of() == MessageClass::Control,
        MessageType::Resume.class_of() == MessageClass::Control,
        MessageType::Cancel.class_of() == MessageClass::Terminal,
        MessageType::Close.class_of() == MessageClass::Terminal,
        MessageType::Error.class_of() == MessageClass::Terminal,
{
}

/// A frame is written exactly if its message can be sent and it speaks of the version that is
/// spoken here; it is 28 bytes of header and the payload, and the header tells the version, the
/// type, the length of the payload and both numbers.
pub proof fn law_frames_are_written(
    codec: WireCodec,
    version: WireVersion,
    sequence: u64,
    correlation_id: u64,
    message: MessageModel,
)
    requires
        message.well_formed(),
    ensures
        encoded_frame(codec, version, sequence, correlation_id, message) is Ok
            <==> encoded_payload(message, codec.limits_spec()) is Ok && version.major
            == codec.version_spec().major && (message matches MessageModel::HelloAck {
            version: agreed,
            ..
        } ==> agreed.major == codec.version_spec().major),
        encoded_frame(codec, version, sequence, correlation_id, message) matches Ok(b) ==> {
            &&& b.len() == 28 + payload_length(message)
            &&& b[0] == 'D' as u8 && b[1] == 'R' as u8 && b[2] == 'F' as u8 && b[3] == 'T' as u8
            &&& b[4] == version.major && b[5] == version.minor && b[6] == 0
            &&& b[7] == message.message_type().code()
            &&& four_bytes(b, 8) == payload_length(message)
            &&& eight_bytes(b, 12) == sequence
            &&& eight_bytes(b, 20) == correlation_id
            &&& b.skip(28) == payload_bytes(message)
        },
{
    law_messages_within_limits_are_sent(message, codec.limits_spec());
    if let Ok(b) = encoded_frame(codec, version, sequence, correlation_id, message) {
        let header = message_header(version, sequence, correlation_id, message);
        let head = header_bytes(header);
        law_header_layout(header);
        assert(b =~= head + payload_bytes(message));
        assert(forall|i: int| 0 <= i < 28 ==> #[trigger] b[i] == head[i]);
        assert(b.skip(28) =~= payload_bytes(message));
        assert(four_bytes(b, 8) == four_bytes(head, 8));
        assert(eight_bytes(b, 12) == eight_bytes(head, 12));
        assert(eight_bytes(b, 20) == eight_bytes(head, 20));
    }
}

/// Why a message cannot be sent: limits that make no sense, too many capabilities or too long a
/// body, a chunk of another length than it says, or too long a payload.
pub proof fn law_messages_are_refused_for_cause(message: MessageModel, limits: WireLimits)
    requires
        message.well_formed(),
    ensures
        encoded_payload(message, limits) == Err::<Seq<u8>, WireError>(WireError::InvalidLimits)
            <==> !limits.valid(),
        limits.valid() ==> match message {
            MessageModel::Hello { capabilities } => capabilities.len() > limits.max_capabilities
                ==> (encoded_payload(message, limits) matches Err(WireError::FieldTooLarge { .. })),
            MessageModel::Auth { body, .. } => body.len() > limits.max_opaque_payload
                ==> (encoded_payload(message, limits) matches Err(WireError::FieldTooLarge { .. })),
            MessageModel::ManifestOffer { body, .. } => body.len() > limits.max_opaque_payload
                ==> (encoded_payload(message, limits) matches Err(WireError::FieldTooLarge { .. })),
            MessageModel::ChunkData { length, body, .. } => {
                &&& length != body.len() ==> (encoded_payload(message, limits) matches Err(
                    WireError::MalformedMessage { .. },
                ))
                &&& length == body.len() && length <= usize::MAX && body.len()
                    > limits.max_opaque_payload ==> (encoded_payload(message, limits) matches Err(
                    WireError::FieldTooLarge { .. },
                ))
            },
            _ => encoded_payload(message, limits) matches Err(error) ==> error is FrameTooLarge
                || error is FieldTooLarge || error is DuplicateCapability
                || error is UnsupportedCapability,
        },
{
    if let MessageModel::Hello { capabilities } = message {
        lemma_offer_fault_kinds(capabilities);
    }
    if let MessageModel::HelloAck { capabilities, .. } = message {
        lemma_offer_fault_kinds(capabilities);
    }
}

proof fn lemma_offer_fault_kinds(offers: Seq<CapabilityOffer>)
    ensures
        crate::wire::encode::offers_fault(offers) matches Some(error) ==> error
            is DuplicateCapability || error is UnsupportedCapability,
    decreases offers.len(),
{
    if offers.len() > 0 {
        lemma_offer_fault_kinds(offers.drop_last());
    }
}

} // verus!
