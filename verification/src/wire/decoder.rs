//! Decoding of a stream of frames that arrives in pieces.
use vstd::prelude::*;
use crate::wire::codec::{parsed_frame, WireCodec};
use crate::wire::encode::append_bytes;
use crate::wire::frame::{FrameModel, WireFrame};
use crate::wire::types::WireError;

verus! {

/// What decoding a buffer from its start gives: the frames that are complete, the bytes after
/// them, and what is wrong with those bytes unless they are the start of a frame.
#[verifier::ext_equal]
pub struct Drained {
    pub frames: Seq<FrameModel>,
    pub rest: Seq<u8>,
    pub fault: Option<WireError>,
}

pub open spec fn drained(codec: WireCodec, b: Seq<u8>) -> Drained
    decreases b.len(),
{
    match parsed_frame(codec, b) {
        Ok((frame, consumed)) => if 0 < consumed <= b.len() {
            let after = drained(codec, b.skip(consumed as int));
            Drained { frames: seq![frame] + after.frames, rest: after.rest, fault: after.fault }
        } else {
            Drained { frames: Seq::empty(), rest: b, fault: None }
        },
        Err(WireError::Incomplete { .. }) => Drained {
            frames: Seq::empty(),
            rest: b,
            fault: None,
        },
        Err(error) => Drained { frames: Seq::empty(), rest: b, fault: Some(error) },
    }
}

/// What bytes that come after others in a buffer do: what is then left in it, and the frames that
/// they complete or what is wrong with them.
pub open spec fn pushed(codec: WireCodec, pending: Seq<u8>, bytes: Seq<u8>) -> (
    Seq<u8>,
    Result<Seq<FrameModel>, WireError>,
) {
    let max = codec.limits_spec().max_buffered_bytes;
    let outcome = drained(codec, pending + bytes);
    if !codec.limits_spec().valid() {
        (pending, Err(WireError::InvalidLimits))
    } else if pending.len() + bytes.len() > max {
        (pending, Err(WireError::BufferTooLarge { max }))
    } else {
        match outcome.fault {
            Some(error) => (outcome.rest, Err(error)),
            None => (outcome.rest, Ok(outcome.frames)),
        }
    }
}

pub open spec fn frame_models(frames: Seq<WireFrame>) -> Seq<FrameModel> {
    frames.map_values(|frame: WireFrame| frame@)
}

pub struct FrameDecoder {
    codec: WireCodec,
    buffer: Vec<u8>,
}

impl FrameDecoder {
    pub closed spec fn codec_spec(self) -> WireCodec {
        self.codec
    }

    /// The bytes received and not yet part of a decoded frame.
    pub closed spec fn pending(self) -> Seq<u8> {
        self.buffer@
    }

    /// The buffer keeps to its limit.
    pub open spec fn well_formed(self) -> bool {
        self.pending().len() <= self.codec_spec().limits_spec().max_buffered_bytes
    }

    pub fn new(codec: WireCodec) -> (decoder: Self)
        ensures
            decoder.codec_spec() == codec,
            decoder.pending() == Seq::<u8>::empty(),
            decoder.well_formed(),
    {
        Self { codec, buffer: Vec::new() }
    }

    /// Adds received bytes and returns the frames that they complete. After a fault the buffer
    /// starts at the frame that is at fault.
    pub fn push(&mut self, bytes: &[u8]) -> (result: Result<Vec<WireFrame>, WireError>)
        requires
            old(self).well_formed(),
        ensures
            final(self).well_formed(),
            final(self).codec_spec() == old(self).codec_spec(),
            ({
                let codec = old(self).codec_spec();
                let max = codec.limits_spec().max_buffered_bytes;
                let all = old(self).pending() + bytes@;
                let outcome = drained(codec, all);
                if !codec.limits_spec().valid() {
                    &&& result == Err::<Vec<WireFrame>, WireError>(WireError::InvalidLimits)
                    &&& final(self).pending() == old(self).pending()
                } else if all.len() > max {
                    &&& result == Err::<Vec<WireFrame>, WireError>(
                        WireError::BufferTooLarge { max },
                    )
                    &&& final(self).pending() == old(self).pending()
                } else {
                    &&& final(self).pending() == outcome.rest
                    &&& match outcome.fault {
                        Some(error) => result == Err::<Vec<WireFrame>, WireError>(error),
                        None => result is Ok && frame_models(result->Ok_0@) == outcome.frames,
                    }
                }
            }),
            final(self).pending() == pushed(
                old(self).codec_spec(),
                old(self).pending(),
                bytes@,
            ).0,
            match pushed(old(self).codec_spec(), old(self).pending(), bytes@).1 {
                Ok(frames) => result matches Ok(found) && frame_models(found@) == frames,
                Err(error) => result == Err::<Vec<WireFrame>, WireError>(error),
            },
    {
        self.codec.limits().validate()?;
        let max: usize = self.codec.limits().max_buffered_bytes;
        let new_len: usize = match self.buffer.len().checked_add(bytes.len()) {
            Some(sum) => sum,
            None => {
                return Err(WireError::BufferTooLarge { max });
            },
        };
        if new_len > max {
            return Err(WireError::BufferTooLarge { max });
        }
        append_bytes(&mut self.buffer, bytes);
        let ghost all = self.buffer@;
        let ghost codec = self.codec;
        let mut frames: Vec<WireFrame> = Vec::new();
        let mut consumed: usize = 0;
        let mut fault: Option<WireError> = None;
        let mut done = false;
        assert(all.skip(0) =~= all);
        assert(frame_models(frames@) =~= Seq::<FrameModel>::empty());
        assert(frame_models(frames@) + drained(codec, all).frames =~= drained(codec, all).frames);
        while !done
            invariant
                self.buffer@ == all,
                self.codec == codec,
                consumed <= all.len(),
                !done ==> fault is None,
                ({
                    let outcome = drained(codec, all);
                    let after = drained(codec, all.skip(consumed as int));
                    &&& outcome.rest == after.rest
                    &&& outcome.fault == after.fault
                    &&& outcome.frames == frame_models(frames@) + after.frames
                    &&& done ==> after.rest == all.skip(consumed as int) && after.fault == fault
                        && after.frames == Seq::<FrameModel>::empty()
                }),
            decreases
                all.len() - consumed,
                (if done {
                    0int
                } else {
                    1int
                }),
        {
            let ghost before = all.skip(consumed as int);
            let rest = vstd::slice::slice_subrange(
                self.buffer.as_slice(),
                consumed,
                self.buffer.len(),
            );
            assert(rest@ =~= before);
            match self.codec.decode(rest) {
                Ok((frame, frame_consumed)) => {
                    assert(all.skip(consumed as int + frame_consumed as int) =~= before.skip(
                        frame_consumed as int,
                    ));
                    let ghost earlier = frames@;
                    frames.push(frame);
                    assert(frame_models(frames@) =~= frame_models(earlier) + seq![frame@]);
                    assert(frame_models(earlier) + drained(codec, before).frames
                        =~= frame_models(frames@) + drained(
                        codec,
                        before.skip(frame_consumed as int),
                    ).frames);
                    consumed = consumed + frame_consumed;
                },
                Err(WireError::Incomplete { .. }) => {
                    done = true;
                },
                Err(error) => {
                    fault = Some(error);
                    done = true;
                },
            }
        }
        let rest = self.buffer.split_off(consumed);
        self.buffer = rest;
        assert(self.buffer@ =~= all.skip(consumed as int));
        proof {
            assert(drained(codec, all).frames =~= frame_models(frames@));
        }
        match fault {
            Some(error) => Err(error),
            None => Ok(frames),
        }
    }

    /// The end of the stream: nothing may be left of a frame.
    pub fn finish(self) -> (result: Result<(), WireError>)
        ensures
            result == (if self.pending().len() == 0 {
                Ok::<(), WireError>(())
            } else {
                Err(WireError::Truncated)
            }),
    {
        if self.buffer.is_empty() {
            Ok(())
        } else {
            Err(WireError::Truncated)
        }
    }
}

} // verus!
