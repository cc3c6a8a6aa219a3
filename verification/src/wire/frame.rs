//! Frames: a fixed header followed by a payload.
use vstd::prelude::*;
use crate::wire::bytes::{be_bytes, be_value, lemma_be_bounds, lemma_be_value_bound, put_be, read_be};
use crate::wire::decode::parsed_message;
use crate::wire::encode::{append_bytes, malformed};
use crate::wire::message::{MessageModel, WireMessage};
use crate::wire::types::{
    MessageType, WireError, WireLimits, WireVersion, OPTIONAL_MESSAGE_BIT, WIRE_HEADER_LEN,
    WIRE_MAGIC,
};

verus! {

#[derive(Debug, Clone, Copy, PartialEq, Eq, Structural)]
pub struct FrameHeader {
    pub version: WireVersion,
    pub flags: u8,
    pub message_type: u8,
    pub payload_len: u32,
    pub sequence: u64,
    pub correlation_id: u64,
}

impl FrameHeader {
    /// Whether a peer that does not know the message type may skip the frame.
    pub fn optional(self) -> (optional: bool)
        ensures
            optional == (self.message_type >= OPTIONAL_MESSAGE_BIT),
    {
        let message_type: u8 = self.message_type;
        assert((message_type & 0x80u8 != 0) == (message_type >= 0x80)) by (bit_vector);
        message_type & OPTIONAL_MESSAGE_BIT != 0
    }
}

#[derive(Clone, PartialEq, Eq)]
pub enum FramePayload {
    Message(WireMessage),
    UnknownOptional { message_type: u8, body: Vec<u8> },
}

#[derive(Clone, PartialEq, Eq)]
pub struct WireFrame {
    pub header: FrameHeader,
    pub payload: FramePayload,
}

#[verifier::ext_equal]
pub enum PayloadModel {
    Message(MessageModel),
    UnknownOptional { message_type: u8, body: Seq<u8> },
}

#[verifier::ext_equal]
pub struct FrameModel {
    pub header: FrameHeader,
    pub payload: PayloadModel,
}

impl View for FramePayload {
    type V = PayloadModel;

    open spec fn view(&self) -> PayloadModel {
        match *self {
            FramePayload::Message(message) => PayloadModel::Message(message@),
            FramePayload::UnknownOptional { message_type, body } => PayloadModel::UnknownOptional {
                message_type,
                body: body@,
            },
        }
    }
}

impl View for WireFrame {
    type V = FrameModel;

    open spec fn view(&self) -> FrameModel {
        FrameModel { header: self.header, payload: self.payload@ }
    }
}

/// The bytes "DRFT".
pub open spec fn magic() -> Seq<u8> {
    seq![0x44u8, 0x52u8, 0x46u8, 0x54u8]
}

/// The 28 bytes of a header.
pub open spec fn header_bytes(header: FrameHeader) -> Seq<u8> {
    magic() + seq![
        header.version.major,
        header.version.minor,
        header.flags,
        header.message_type,
    ] + be_bytes(header.payload_len as nat, 4) + be_bytes(header.sequence as nat, 8) + be_bytes(
        header.correlation_id as nat,
        8,
    )
}

/// The header at the start of `b`.
pub open spec fn parsed_header(b: Seq<u8>) -> Result<FrameHeader, WireError> {
    if b.len() < 28 {
        Err(WireError::Incomplete { needed: (28 - b.len()) as usize })
    } else if b.subrange(0, 4) != magic() {
        Err(WireError::InvalidMagic)
    } else {
        Ok(
            FrameHeader {
                version: WireVersion { major: b[4], minor: b[5] },
                flags: b[6],
                message_type: b[7],
                payload_len: be_value(b.subrange(8, 12)) as u32,
                sequence: be_value(b.subrange(12, 20)) as u64,
                correlation_id: be_value(b.subrange(20, 28)) as u64,
            },
        )
    }
}

/// The message type with this number, if there is one.
pub open spec fn type_of_code(code: int) -> Option<MessageType> {
    if 1 <= code <= 15 {
        Some(choose|t: MessageType| t.code() == code)
    } else {
        None
    }
}

pub proof fn lemma_type_of_code(t: MessageType)
    ensures
        type_of_code(t.code() as int) == Some(t),
        1 <= t.code() <= 15,
{
    let found = choose|u: MessageType| u.code() == t.code();
    assert(found.code() == t.code());
    assert(found == t);
}

/// What the payload `b` under the type byte `raw` is: types above the optional bit that nobody
/// knows are kept as they are, known types must not carry that bit.
pub open spec fn parsed_payload(raw: u8, b: Seq<u8>, limits: WireLimits) -> Result<
    PayloadModel,
    WireError,
> {
    let optional = raw >= OPTIONAL_MESSAGE_BIT;
    let code = if optional {
        raw - OPTIONAL_MESSAGE_BIT
    } else {
        raw as int
    };
    match type_of_code(code) {
        None => if optional {
            Ok(PayloadModel::UnknownOptional { message_type: raw, body: b })
        } else {
            Err(WireError::UnknownMandatoryMessage { message_type: raw })
        },
        Some(message_type) => if optional {
            Err(WireError::KnownMessageMarkedOptional { message_type })
        } else {
            match parsed_message(message_type, b, limits) {
                Ok(message) => Ok(PayloadModel::Message(message)),
                Err(WireError::Incomplete { .. }) => Err(
                    malformed(message_type, "message body is truncated"),
                ),
                Err(error) => Err(error),
            }
        },
    }
}

pub(crate) fn decode_payload(raw_message_type: u8, payload: &[u8], limits: WireLimits) -> (result:
    Result<FramePayload, WireError>)
    ensures
        match result {
            Ok(decoded) => parsed_payload(raw_message_type, payload@, limits) == Ok::<
                PayloadModel,
                WireError,
            >(decoded@),
            Err(error) => parsed_payload(raw_message_type, payload@, limits) == Err::<
                PayloadModel,
                WireError,
            >(error),
        },
{
    let raw: u8 = raw_message_type;
    assert((raw & 0x80u8 != 0) == (raw >= 0x80)) by (bit_vector);
    assert(raw & !0x80u8 == (if raw >= 0x80 {
        (raw - 0x80) as u8
    } else {
        raw
    })) by (bit_vector);
    let optional = raw & OPTIONAL_MESSAGE_BIT != 0;
    let code: u8 = raw & !OPTIONAL_MESSAGE_BIT;
    match MessageType::from_wire(code) {
        None => {
            if optional {
                let mut body: Vec<u8> = Vec::new();
                append_bytes(&mut body, payload);
                assert(body@ =~= payload@);
                return Ok(FramePayload::UnknownOptional { message_type: raw, body });
            }
            Err(WireError::UnknownMandatoryMessage { message_type: raw })
        },
        Some(message_type) => {
            proof {
                lemma_type_of_code(message_type);
            }
            if optional {
                return Err(WireError::KnownMessageMarkedOptional { message_type });
            }
            match WireMessage::decode_payload(message_type, payload, limits) {
                Ok(message) => Ok(FramePayload::Message(message)),
                Err(WireError::Incomplete { .. }) => Err(
                    WireError::MalformedMessage {
                        message_type,
                        reason: "message body is truncated",
                    },
                ),
                Err(error) => Err(error),
            }
        },
    }
}

pub(crate) fn encode_header(bytes: &mut Vec<u8>, header: FrameHeader)
    ensures
        final(bytes)@ == old(bytes)@ + header_bytes(header),
{
    bytes.push(WIRE_MAGIC[0]);
    bytes.push(WIRE_MAGIC[1]);
    bytes.push(WIRE_MAGIC[2]);
    bytes.push(WIRE_MAGIC[3]);
    bytes.push(header.version.major);
    bytes.push(header.version.minor);
    bytes.push(header.flags);
    bytes.push(header.message_type);
    put_be(bytes, header.payload_len as u64, 4);
    put_be(bytes, header.sequence, 8);
    put_be(bytes, header.correlation_id, 8);
    assert(bytes@ =~= old(bytes)@ + header_bytes(header));
}

pub(crate) fn decode_header(bytes: &[u8]) -> (result: Result<FrameHeader, WireError>)
    ensures
        result == parsed_header(bytes@),
{
    if bytes.len() < WIRE_HEADER_LEN {
        return Err(WireError::Incomplete { needed: WIRE_HEADER_LEN - bytes.len() });
    }
    if bytes[0] != WIRE_MAGIC[0] || bytes[1] != WIRE_MAGIC[1] || bytes[2] != WIRE_MAGIC[2]
        || bytes[3] != WIRE_MAGIC[3] {
        proof {
            let found = bytes@.subrange(0, 4);
            assert(found[0] == bytes@[0] && found[1] == bytes@[1] && found[2] == bytes@[2]
                && found[3] == bytes@[3]);
            assert(magic()[0] == 0x44 && magic()[1] == 0x52 && magic()[2] == 0x46 && magic()[3]
                == 0x54);
        }
        return Err(WireError::InvalidMagic);
    }
    assert(bytes@.subrange(0, 4) =~= magic());
    let version = WireVersion::new(bytes[4], bytes[5]);
    let flags: u8 = bytes[6];
    let message_type: u8 = bytes[7];
    proof {
        lemma_be_bounds();
        lemma_be_value_bound(bytes@.subrange(8, 12));
    }
    let payload_len: u32 = read_be(vstd::slice::slice_subrange(bytes, 8, 12)) as u32;
    let sequence: u64 = read_be(vstd::slice::slice_subrange(bytes, 12, 20));
    let correlation_id: u64 = read_be(vstd::slice::slice_subrange(bytes, 20, 28));
    Ok(FrameHeader { version, flags, message_type, payload_len, sequence, correlation_id })
}

} // verus!
