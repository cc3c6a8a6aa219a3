//! What frames and the stream decoder promise.
use vstd::prelude::*;
use crate::wire::bytes::{
    be_bytes, lemma_be_bounds, lemma_be_bytes_len, lemma_be_bytes_of_value, lemma_be_value_bound,
    lemma_be_value_of_bytes,
};
use crate::wire::codec::{
    encoded_frame, frame_length_spec, message_header, parsed_frame, WireCodec,
};
use crate::wire::decoder::{drained, pushed, Drained};
use crate::wire::encode::payload_bytes;
use crate::wire::frame::{
    header_bytes, lemma_type_of_code, magic, parsed_header, type_of_code, FrameHeader, FrameModel,
    PayloadModel,
};
use crate::wire::message::MessageModel;
use crate::wire::payload_laws::{law_payload_canonical, law_payload_round_trip};
use crate::wire::types::{MessageType, WireError, WireVersion};

verus! {

/// A header is read back as it was written, whatever follows it.
pub proof fn law_header_round_trip(header: FrameHeader, rest: Seq<u8>)
    ensures
        header_bytes(header).len() == 28,
        parsed_header(header_bytes(header) + rest) == Ok::<FrameHeader, WireError>(header),
{
    lemma_be_bytes_len(header.payload_len as nat, 4);
    lemma_be_bytes_len(header.sequence as nat, 8);
    lemma_be_bytes_len(header.correlation_id as nat, 8);
    lemma_be_bounds();
    lemma_be_value_of_bytes(header.payload_len as nat, 4);
    lemma_be_value_of_bytes(header.sequence as nat, 8);
    lemma_be_value_of_bytes(header.correlation_id as nat, 8);
    let b = header_bytes(header) + rest;
    assert(b.subrange(0, 4) =~= magic());
    assert(b.subrange(8, 12) =~= be_bytes(header.payload_len as nat, 4));
    assert(b.subrange(12, 20) =~= be_bytes(header.sequence as nat, 8));
    assert(b.subrange(20, 28) =~= be_bytes(header.correlation_id as nat, 8));
}

/// Every frame that is encoded decodes, whatever follows it, to the message, version, sequence and
/// correlation numbers that went in, and takes exactly its own bytes.
pub proof fn law_frame_round_trip(
    codec: WireCodec,
    version: WireVersion,
    sequence: u64,
    correlation_id: u64,
    message: MessageModel,
    rest: Seq<u8>,
)
    requires
        message.well_formed(),
        encoded_frame(codec, version, sequence, correlation_id, message) is Ok,
        encoded_frame(codec, version, sequence, correlation_id, message)->Ok_0.len() <= usize::MAX,
    ensures
        ({
            let bytes = encoded_frame(codec, version, sequence, correlation_id, message)->Ok_0;
            let frame = FrameModel {
                header: message_header(version, sequence, correlation_id, message),
                payload: PayloadModel::Message(message),
            };
            &&& bytes.len() >= 28
            &&& parsed_frame(codec, bytes + rest) == Ok::<(FrameModel, nat), WireError>(
                (frame, bytes.len()),
            )
        }),
{
    reveal(parsed_frame);
    let header = message_header(version, sequence, correlation_id, message);
    let payload = payload_bytes(message);
    law_payload_round_trip(message, codec.limits_spec());
    lemma_type_of_code(message.message_type());
    law_header_round_trip(header, payload + rest);
    let bytes = encoded_frame(codec, version, sequence, correlation_id, message)->Ok_0;
    assert(bytes + rest =~= header_bytes(header) + (payload + rest));
    assert((bytes + rest).subrange(28, 28 + payload.len() as int) =~= payload);
}

/// A header that is read is written back as the same 28 bytes.
pub proof fn law_header_canonical(b: Seq<u8>)
    requires
        parsed_header(b) is Ok,
    ensures
        header_bytes(parsed_header(b)->Ok_0) == b.take(28),
{
    let header = parsed_header(b)->Ok_0;
    lemma_be_bytes_of_value(b.subrange(8, 12));
    lemma_be_bytes_of_value(b.subrange(12, 20));
    lemma_be_bytes_of_value(b.subrange(20, 28));
    lemma_be_value_bound(b.subrange(8, 12));
    lemma_be_value_bound(b.subrange(12, 20));
    lemma_be_value_bound(b.subrange(20, 28));
    lemma_be_bounds();
    assert(b.take(28) =~= b.subrange(0, 4) + seq![b[4], b[5], b[6], b[7]] + b.subrange(8, 12)
        + b.subrange(12, 20) + b.subrange(20, 28));
}

/// A frame that decodes to a message is the one encoding of that message under its header's
/// version, sequence and correlation numbers.
pub proof fn law_frame_canonical(codec: WireCodec, b: Seq<u8>)
    requires
        parsed_frame(codec, b) matches Ok((frame, _)) && frame.payload is Message,
    ensures
        ({
            let (frame, consumed) = parsed_frame(codec, b)->Ok_0;
            let message = frame.payload->Message_0;
            encoded_frame(
                codec,
                frame.header.version,
                frame.header.sequence,
                frame.header.correlation_id,
                message,
            ) == Ok::<Seq<u8>, WireError>(b.take(consumed as int))
        }),
{
    reveal(parsed_frame);
    let (frame, consumed) = parsed_frame(codec, b)->Ok_0;
    let header = frame.header;
    let message = frame.payload->Message_0;
    let payload = b.subrange(28, consumed as int);
    law_header_canonical(b);
    let t = type_of_code(header.message_type as int)->Some_0;
    assert(t.code() == header.message_type) by {
        lemma_code_of_type(header.message_type as int);
    }
    law_payload_canonical(t, payload, codec.limits_spec());
    assert(b.take(consumed as int) =~= b.take(28) + payload);
}

/// Every number of a message type is the code of the type it stands for.
pub proof fn lemma_code_of_type(code: int)
    requires
        type_of_code(code) is Some,
    ensures
        type_of_code(code)->Some_0.code() == code,
{
    let witness = if code == 1 {
        MessageType::Hello
    } else if code == 2 {
        MessageType::HelloAck
    } else if code == 3 {
        MessageType::Auth
    } else if code == 4 {
        MessageType::SessionStart
    } else if code == 5 {
        MessageType::SessionAccept
    } else if code == 6 {
        MessageType::ManifestOffer
    } else if code == 7 {
        MessageType::ManifestAccept
    } else if code == 8 {
        MessageType::ChunkRequest
    } else if code == 9 {
        MessageType::ChunkData
    } else if code == 10 {
        MessageType::ChunkAck
    } else if code == 11 {
        MessageType::Pause
    } else if code == 12 {
        MessageType::Resume
    } else if code == 13 {
        MessageType::Cancel
    } else if code == 14 {
        MessageType::Close
    } else {
        MessageType::Error
    };
    assert(witness.code() == code);
}

pub open spec fn is_incomplete(result: Result<(FrameModel, nat), WireError>) -> bool {
    result matches Err(error) && error is Incomplete
}

proof fn lemma_frame_bounds(codec: WireCodec, b: Seq<u8>)
    ensures
        parsed_frame(codec, b) matches Ok((_, consumed)) ==> 28 <= consumed <= b.len(),
{
    reveal(parsed_frame);
}

/// More bytes never change what was already decided: a decoded frame, or a fault.
pub proof fn law_frame_prefix_stable(codec: WireCodec, b: Seq<u8>, more: Seq<u8>)
    requires
        !is_incomplete(parsed_frame(codec, b)),
    ensures
        parsed_frame(codec, b + more) == parsed_frame(codec, b),
{
    reveal(parsed_frame);
    let all = b + more;
    if b.len() >= 28 {
        assert(all.subrange(0, 4) =~= b.subrange(0, 4));
        assert(all.subrange(8, 12) =~= b.subrange(8, 12));
        assert(all.subrange(12, 20) =~= b.subrange(12, 20));
        assert(all.subrange(20, 28) =~= b.subrange(20, 28));
        assert(parsed_header(all) == parsed_header(b));
        if let Ok(header) = parsed_header(b) {
            let length = 28 + header.payload_len as int;
            if length <= b.len() {
                assert(all.subrange(28, length) =~= b.subrange(28, length));
            }
        }
    }
}

/// The length that a frame's header announces is the length that decoding it takes.
pub proof fn law_frame_length_is_consumed(codec: WireCodec, b: Seq<u8>)
    requires
        parsed_frame(codec, b) is Ok,
    ensures
        frame_length_spec(codec, b.take(28)) is Ok,
        frame_length_spec(codec, b.take(28))->Ok_0 as nat == parsed_frame(codec, b)->Ok_0.1,
{
    reveal(parsed_frame);
    let head = b.take(28);
    assert(head.subrange(0, 4) =~= b.subrange(0, 4));
    assert(head.subrange(8, 12) =~= b.subrange(8, 12));
    assert(head.subrange(12, 20) =~= b.subrange(12, 20));
    assert(head.subrange(20, 28) =~= b.subrange(20, 28));
}

/// How a stream is cut into pieces makes no difference: decoding the first piece, and then what it
/// left followed by the second piece, gives what decoding both at once gives. A fault in the first
/// piece is the fault of the whole.
pub proof fn law_fragmentation(codec: WireCodec, first: Seq<u8>, second: Seq<u8>)
    ensures
        ({
            let one = drained(codec, first);
            let two = drained(codec, one.rest + second);
            drained(codec, first + second) == match one.fault {
                None => Drained {
                    frames: one.frames + two.frames,
                    rest: two.rest,
                    fault: two.fault,
                },
                Some(error) => Drained {
                    frames: one.frames,
                    rest: one.rest + second,
                    fault: Some(error),
                },
            }
        }),
    decreases first.len(),
{
    let one = drained(codec, first);
    let all = first + second;
    let step = parsed_frame(codec, first);
    lemma_frame_bounds(codec, first);
    if let Ok((frame, consumed)) = step {
        law_frame_prefix_stable(codec, first, second);
        law_fragmentation(codec, first.skip(consumed as int), second);
        assert(all.skip(consumed as int) =~= first.skip(consumed as int) + second);
        let tail = drained(codec, first.skip(consumed as int));
        let two = drained(codec, one.rest + second);
        assert(seq![frame] + (tail.frames + two.frames) =~= one.frames + two.frames);
        assert(drained(codec, all).frames =~= if one.fault is None {
            one.frames + two.frames
        } else {
            one.frames
        });
    } else if is_incomplete(step) {
        assert(one.rest + second =~= all);
        assert(one.frames + drained(codec, all).frames =~= drained(codec, all).frames);
    } else {
        law_frame_prefix_stable(codec, first, second);
    }
}

/// Decoding loses no byte and adds none: with no fault, what is left is the end of the input and
/// is shorter than the frame it is the start of.
pub proof fn law_drained_rest_is_suffix(codec: WireCodec, b: Seq<u8>)
    ensures
        ({
            let outcome = drained(codec, b);
            &&& outcome.rest.len() <= b.len()
            &&& outcome.rest == b.skip(b.len() - outcome.rest.len())
            &&& outcome.fault is None ==> is_incomplete(parsed_frame(codec, outcome.rest))
            &&& outcome.fault is None ==> outcome.rest.len() < 28
                + codec.limits_spec().max_frame_payload
        }),
    decreases b.len(),
{
    lemma_frame_bounds(codec, b);
    match parsed_frame(codec, b) {
        Ok((_, consumed)) => {
            law_drained_rest_is_suffix(codec, b.skip(consumed as int));
            let rest = drained(codec, b).rest;
            assert(b.skip(consumed as int).skip(b.len() - consumed - rest.len()) =~= b.skip(
                b.len() - rest.len(),
            ));
        },
        Err(_) => {
            reveal(parsed_frame);
            assert(b.skip(0) =~= b);
        },
    }
}

/// One message as it is sent: version, sequence and correlation numbers, and the message.
pub struct Sent {
    pub version: WireVersion,
    pub sequence: u64,
    pub correlation_id: u64,
    pub message: MessageModel,
}

impl Sent {
    pub open spec fn bytes(self, codec: WireCodec) -> Seq<u8> {
        encoded_frame(codec, self.version, self.sequence, self.correlation_id, self.message)->Ok_0
    }

    pub open spec fn sendable(self, codec: WireCodec) -> bool {
        &&& self.message.well_formed()
        &&& encoded_frame(
            codec,
            self.version,
            self.sequence,
            self.correlation_id,
            self.message,
        ) is Ok
        &&& self.bytes(codec).len() <= usize::MAX
    }

    pub open spec fn frame(self) -> FrameModel {
        FrameModel {
            header: message_header(
                self.version,
                self.sequence,
                self.correlation_id,
                self.message,
            ),
            payload: PayloadModel::Message(self.message),
        }
    }
}

/// The encodings of several messages, one after the other.
pub open spec fn stream_bytes(codec: WireCodec, sent: Seq<Sent>) -> Seq<u8>
    decreases sent.len(),
{
    if sent.len() == 0 {
        Seq::empty()
    } else {
        sent[0].bytes(codec) + stream_bytes(codec, sent.skip(1))
    }
}

/// A stream of encoded messages decodes to those messages, in order, with nothing left over.
pub proof fn law_stream_round_trip(codec: WireCodec, sent: Seq<Sent>)
    requires
        codec.limits_spec().valid(),
        forall|i: int| 0 <= i < sent.len() ==> (#[trigger] sent[i]).sendable(codec),
    ensures
        drained(codec, stream_bytes(codec, sent)) == (Drained {
            frames: sent.map_values(|one: Sent| one.frame()),
            rest: Seq::empty(),
            fault: None,
        }),
    decreases sent.len(),
{
    let b = stream_bytes(codec, sent);
    if sent.len() == 0 {
        reveal(parsed_frame);
        assert(sent.map_values(|one: Sent| one.frame()) =~= Seq::<FrameModel>::empty());
        assert(b =~= Seq::<u8>::empty());
    } else {
        let first = sent[0];
        let later = sent.skip(1);
        assert forall|i: int| 0 <= i < later.len() implies (#[trigger] later[i]).sendable(
            codec,
        ) by {
            assert(later[i] == sent[i + 1]);
        }
        law_stream_round_trip(codec, later);
        law_frame_round_trip(
            codec,
            first.version,
            first.sequence,
            first.correlation_id,
            first.message,
            stream_bytes(codec, later),
        );
        assert(b.skip(first.bytes(codec).len() as int) =~= stream_bytes(codec, later));
        assert(sent.map_values(|one: Sent| one.frame()) =~= seq![first.frame()] + later.map_values(
            |one: Sent| one.frame(),
        ));
    }
}

/// Bytes are taken exactly as long as they fit the buffer together with those that wait; what does
/// not fit changes nothing. Whole messages that are pushed come out as they went in, and nothing is
/// left of them.
pub proof fn law_pushed_messages_come_out(
    codec: WireCodec,
    sent: Seq<Sent>,
    pending: Seq<u8>,
    bytes: Seq<u8>,
)
    requires
        codec.limits_spec().valid(),
        forall|i: int| 0 <= i < sent.len() ==> (#[trigger] sent[i]).sendable(codec),
    ensures
        pending.len() + bytes.len() > codec.limits_spec().max_buffered_bytes ==> pushed(
            codec,
            pending,
            bytes,
        ) == (
            pending,
            Err::<Seq<FrameModel>, WireError>(
                WireError::BufferTooLarge { max: codec.limits_spec().max_buffered_bytes },
            ),
        ),
        stream_bytes(codec, sent).len() <= codec.limits_spec().max_buffered_bytes ==> pushed(
            codec,
            Seq::empty(),
            stream_bytes(codec, sent),
        ) == (
            Seq::<u8>::empty(),
            Ok::<Seq<FrameModel>, WireError>(sent.map_values(|one: Sent| one.frame())),
        ),
{
    law_stream_round_trip(codec, sent);
    assert(Seq::<u8>::empty() + stream_bytes(codec, sent) =~= stream_bytes(codec, sent));
}

/// Messages come out the same however their bytes are cut in two.
pub proof fn law_pushed_in_two_portions(codec: WireCodec, first: Seq<u8>, second: Seq<u8>)
    requires
        codec.limits_spec().valid(),
        first.len() + second.len() <= codec.limits_spec().max_buffered_bytes,
        pushed(codec, Seq::empty(), first).1 is Ok,
    ensures
        ({
            let (waiting, early) = pushed(codec, Seq::empty(), first);
            let (left, late) = pushed(codec, waiting, second);
            let (rest, all) = pushed(codec, Seq::empty(), first + second);
            &&& left == rest
            &&& match late {
                Ok(frames) => all == Ok::<Seq<FrameModel>, WireError>(early->Ok_0 + frames),
                Err(error) => all == Err::<Seq<FrameModel>, WireError>(error),
            }
        }),
{
    law_fragmentation(codec, first, second);
    law_drained_rest_is_suffix(codec, first);
    assert(Seq::<u8>::empty() + first =~= first);
    assert(Seq::<u8>::empty() + (first + second) =~= first + second);
}

} // verus!
