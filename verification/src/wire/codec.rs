//! Whole frames: encoding, decoding, and decoding of a byte stream.
use vstd::prelude::*;
use crate::wire::encode::{append_bytes, encoded_payload, payload_bytes};
use crate::wire::frame::{
    decode_header, decode_payload, encode_header, header_bytes, parsed_header, parsed_payload,
    FrameHeader, FrameModel, FramePayload, PayloadModel, WireFrame,
};
use crate::wire::message::{MessageModel, WireMessage};
use crate::wire::types::{wire_version, WireError, WireLimits, WireVersion, WIRE_HEADER_LEN};

verus! {

#[derive(Debug, Clone, Copy)]
pub struct WireCodec {
    limits: WireLimits,
    local_version: WireVersion,
}

/// What the messages of a version with another major number are answered with.
pub open spec fn version_fault(local: WireVersion, version: WireVersion) -> Option<WireError> {
    if local.major != version.major {
        Some(WireError::UnsupportedVersion { found: version, supported_major: local.major })
    } else {
        None
    }
}

/// A message that names a version must name a supported one.
pub open spec fn message_version_fault(local: WireVersion, message: MessageModel) -> Option<
    WireError,
> {
    match message {
        MessageModel::HelloAck { version, .. } => version_fault(local, version),
        _ => None,
    }
}

pub open spec fn header_fault(
    local: WireVersion,
    limits: WireLimits,
    header: FrameHeader,
) -> Option<WireError> {
    match version_fault(local, header.version) {
        Some(error) => Some(error),
        None => if header.flags != 0 {
            Some(WireError::ReservedFlags { flags: header.flags })
        } else if header.payload_len > limits.max_frame_payload {
            Some(
                WireError::FrameTooLarge {
                    length: header.payload_len as usize,
                    max: limits.max_frame_payload,
                },
            )
        } else {
            None
        },
    }
}

/// The header of the frame that carries `message`.
pub open spec fn message_header(
    version: WireVersion,
    sequence: u64,
    correlation_id: u64,
    message: MessageModel,
) -> FrameHeader {
    FrameHeader {
        version,
        flags: 0,
        message_type: message.message_type().code(),
        payload_len: payload_bytes(message).len() as u32,
        sequence,
        correlation_id,
    }
}

/// The frame that carries `message`, or why there is none.
pub open spec fn encoded_frame(
    codec: WireCodec,
    version: WireVersion,
    sequence: u64,
    correlation_id: u64,
    message: MessageModel,
) -> Result<Seq<u8>, WireError> {
    if !codec.limits_spec().valid() {
        Err(WireError::InvalidLimits)
    } else if version_fault(codec.version_spec(), version) is Some {
        Err(version_fault(codec.version_spec(), version)->Some_0)
    } else if message_version_fault(codec.version_spec(), message) is Some {
        Err(message_version_fault(codec.version_spec(), message)->Some_0)
    } else {
        match encoded_payload(message, codec.limits_spec()) {
            Err(error) => Err(error),
            Ok(payload) => Ok(
                header_bytes(message_header(version, sequence, correlation_id, message)) + payload,
            ),
        }
    }
}

/// The frame at the start of `b` and its length, or what is wrong with it.
#[verifier::opaque]
pub open spec fn parsed_frame(codec: WireCodec, b: Seq<u8>) -> Result<(FrameModel, nat), WireError> {
    let limits = codec.limits_spec();
    if !limits.valid() {
        Err(WireError::InvalidLimits)
    } else {
        match parsed_header(b) {
            Err(error) => Err(error),
            Ok(header) => match header_fault(codec.version_spec(), limits, header) {
                Some(error) => Err(error),
                None => {
                    let length = 28 + header.payload_len as nat;
                    if length > usize::MAX {
                        Err(
                            WireError::FrameTooLarge {
                                length: header.payload_len as usize,
                                max: limits.max_frame_payload,
                            },
                        )
                    } else if b.len() < length {
                        Err(WireError::Incomplete { needed: (length - b.len()) as usize })
                    } else {
                        parsed_body(codec, header, b.subrange(28, length as int))
                    }
                },
            },
        }
    }
}

/// The frame that a sound header and a complete payload make.
pub open spec fn parsed_body(codec: WireCodec, header: FrameHeader, payload: Seq<u8>) -> Result<
    (FrameModel, nat),
    WireError,
> {
    match parsed_payload(header.message_type, payload, codec.limits_spec()) {
        Err(error) => Err(error),
        Ok(payload_model) => {
            let frame = FrameModel { header, payload: payload_model };
            match payload_model {
                PayloadModel::Message(message) => match message_version_fault(
                    codec.version_spec(),
                    message,
                ) {
                    Some(error) => Err(error),
                    None => Ok((frame, 28 + payload.len())),
                },
                PayloadModel::UnknownOptional { .. } => Ok((frame, 28 + payload.len())),
            }
        },
    }
}

impl Default for WireCodec {
    fn default() -> (codec: Self)
        ensures
            codec.version_spec() == (WireVersion { major: 1, minor: 0 }),
            codec.limits_spec() == (WireLimits {
                max_frame_payload: 4_194_304,
                max_opaque_payload: 4_194_304,
                max_capabilities: 64,
                max_buffered_bytes: 8_388_608,
            }),
    {
        Self::new(wire_version(), WireLimits::default())
    }
}

impl WireCodec {
    pub closed spec fn limits_spec(self) -> WireLimits {
        self.limits
    }

    pub closed spec fn version_spec(self) -> WireVersion {
        self.local_version
    }

    pub fn new(local_version: WireVersion, limits: WireLimits) -> (codec: Self)
        ensures
            codec.limits_spec() == limits,
            codec.version_spec() == local_version,
    {
        Self { limits, local_version }
    }

    pub fn limits(self) -> (limits: WireLimits)
        ensures
            limits == self.limits_spec(),
    {
        self.limits
    }

    pub fn local_version(self) -> (version: WireVersion)
        ensures
            version == self.version_spec(),
    {
        self.local_version
    }

    /// Encodes a message in a frame whose correlation number is its own sequence number.
    pub fn encode(&self, version: WireVersion, sequence: u64, message: &WireMessage) -> (result:
        Result<Vec<u8>, WireError>)
        ensures
            match result {
                Ok(bytes) => encoded_frame(*self, version, sequence, sequence, message@) == Ok::<
                    Seq<u8>,
                    WireError,
                >(bytes@),
                Err(error) => encoded_frame(*self, version, sequence, sequence, message@) == Err::<
                    Seq<u8>,
                    WireError,
                >(error),
            },
    {
        self.encode_with_correlation(version, sequence, sequence, message)
    }

    pub fn encode_with_correlation(
        &self,
        version: WireVersion,
        sequence: u64,
        correlation_id: u64,
        message: &WireMessage,
    ) -> (result: Result<Vec<u8>, WireError>)
        ensures
            match result {
                Ok(bytes) => encoded_frame(*self, version, sequence, correlation_id, message@)
                    == Ok::<Seq<u8>, WireError>(bytes@),
                Err(error) => encoded_frame(*self, version, sequence, correlation_id, message@)
                    == Err::<Seq<u8>, WireError>(error),
            },
    {
        self.limits.validate()?;
        self.validate_version(version)?;
        self.validate_message_version(message)?;
        let payload = message.encode_payload(self.limits)?;
        let header = FrameHeader {
            version,
            flags: 0,
            message_type: message.message_type().to_wire(),
            payload_len: payload.len() as u32,
            sequence,
            correlation_id,
        };
        let mut bytes: Vec<u8> = Vec::new();
        encode_header(&mut bytes, header);
        append_bytes(&mut bytes, &payload);
        assert(bytes@ =~= header_bytes(header) + payload@);
        Ok(bytes)
    }

    /// Decodes the frame that `bytes` begin with, and says how many bytes it takes.
    pub fn decode(&self, bytes: &[u8]) -> (result: Result<(WireFrame, usize), WireError>)
        ensures
            match result {
                Ok((frame, consumed)) => {
                    &&& parsed_frame(*self, bytes@) == Ok::<(FrameModel, nat), WireError>(
                        (frame@, consumed as nat),
                    )
                    &&& WIRE_HEADER_LEN <= consumed <= bytes@.len()
                },
                Err(error) => parsed_frame(*self, bytes@) == Err::<(FrameModel, nat), WireError>(
                    error,
                ),
            },
    {
        reveal(parsed_frame);
        self.limits.validate()?;
        let header = decode_header(bytes)?;
        self.validate_header(header)?;
        let payload_len: usize = header.payload_len as usize;
        let frame_len: usize = match WIRE_HEADER_LEN.checked_add(payload_len) {
            Some(sum) => sum,
            None => {
                return Err(
                    WireError::FrameTooLarge {
                        length: payload_len,
                        max: self.limits.max_frame_payload,
                    },
                );
            },
        };
        if bytes.len() < frame_len {
            return Err(WireError::Incomplete { needed: frame_len - bytes.len() });
        }
        let body = vstd::slice::slice_subrange(bytes, WIRE_HEADER_LEN, frame_len);
        let payload = decode_payload(header.message_type, body, self.limits)?;
        if let FramePayload::Message(message) = &payload {
            self.validate_message_version(message)?;
        }
        Ok((WireFrame { header, payload }, frame_len))
    }

    /// Decodes a frame that takes all of `bytes`.
    pub fn decode_exact(&self, bytes: &[u8]) -> (result: Result<WireFrame, WireError>)
        ensures
            match parsed_frame(*self, bytes@) {
                Err(error) => result == Err::<WireFrame, WireError>(error),
                Ok((frame, consumed)) => if consumed == bytes@.len() {
                    result is Ok && result->Ok_0@ == frame
                } else {
                    result == Err::<WireFrame, WireError>(WireError::TrailingBytes)
                },
            },
    {
        let (frame, consumed) = self.decode(bytes)?;
        if consumed != bytes.len() {
            return Err(WireError::TrailingBytes);
        }
        Ok(frame)
    }

    fn validate_version(&self, version: WireVersion) -> (result: Result<(), WireError>)
        ensures
            result == (match version_fault(self.version_spec(), version) {
                Some(error) => Err(error),
                None => Ok::<(), WireError>(()),
            }),
    {
        if !self.local_version.same_major(version) {
            return Err(
                WireError::UnsupportedVersion {
                    found: version,
                    supported_major: self.local_version.major,
                },
            );
        }
        Ok(())
    }

    fn validate_header(&self, header: FrameHeader) -> (result: Result<(), WireError>)
        ensures
            result == (match header_fault(self.version_spec(), self.limits_spec(), header) {
                Some(error) => Err(error),
                None => Ok::<(), WireError>(()),
            }),
    {
        self.validate_version(header.version)?;
        if header.flags != 0 {
            return Err(WireError::ReservedFlags { flags: header.flags });
        }
        let payload_len: usize = header.payload_len as usize;
        if payload_len > self.limits.max_frame_payload {
            return Err(
                WireError::FrameTooLarge {
                    length: payload_len,
                    max: self.limits.max_frame_payload,
                },
            );
        }
        Ok(())
    }

    fn validate_message_version(&self, message: &WireMessage) -> (result: Result<(), WireError>)
        ensures
            result == (match message_version_fault(self.version_spec(), message@) {
                Some(error) => Err(error),
                None => Ok::<(), WireError>(()),
            }),
    {
        reveal(WireMessage::model);
        if let WireMessage::HelloAck { version, .. } = message {
            self.validate_version(*version)?;
        }
        Ok(())
    }

    /// How many bytes the frame with this header takes, for a reader that has read the header and
    /// nothing else yet.
    pub fn frame_length(&self, header_bytes: &[u8]) -> (result: Result<usize, WireError>)
        ensures
            result == frame_length_spec(*self, header_bytes@),
    {
        self.limits.validate()?;
        let header = decode_header(header_bytes)?;
        self.validate_header(header)?;
        match WIRE_HEADER_LEN.checked_add(header.payload_len as usize) {
            Some(sum) => Ok(sum),
            None => Err(
                WireError::FrameTooLarge {
                    length: header.payload_len as usize,
                    max: self.limits.max_frame_payload,
                },
            ),
        }
    }
}

/// The length that a frame's header announces.
pub open spec fn frame_length_spec(codec: WireCodec, b: Seq<u8>) -> Result<usize, WireError> {
    let limits = codec.limits_spec();
    if !limits.valid() {
        Err(WireError::InvalidLimits)
    } else {
        match parsed_header(b) {
            Err(error) => Err(error),
            Ok(header) => match header_fault(codec.version_spec(), limits, header) {
                Some(error) => Err(error),
                None => if 28 + header.payload_len > usize::MAX {
                    Err(
                        WireError::FrameTooLarge {
                            length: header.payload_len as usize,
                            max: limits.max_frame_payload,
                        },
                    )
                } else {
                    Ok((28 + header.payload_len) as usize)
                },
            },
        }
    }
}

} // verus!
