use drift::backend::{BackendError, BackendProtocolError};
use drift::io_kind::IoErrorKind;
use drift::wire::codec::WireCodec;
use drift::wire::decoder::FrameDecoder;
use drift::wire::frame::{FramePayload, WireFrame};
use drift::wire::message::WireMessage;
use drift::wire::state::WireState;
use drift::wire::types::{
    wire_version, AuthMessageKind, CapabilityOffer, KnownCapability, MessageClass, MessageType,
    ProtocolPhase, WireError, WireId, WireLimits, WireRole, WireVersion, OPTIONAL_MESSAGE_BIT,
    WIRE_HEADER_LEN, WIRE_MAGIC,
};

const MAX_FRAME_PAYLOAD: usize = 4 * 1024 * 1024;
const AEAD_TAG_LEN: usize = 16;

fn id(value: u8) -> WireId {
    WireId::from_bytes([value; 16])
}

fn hello() -> WireMessage {
    WireMessage::Hello {
        capabilities: vec![
            CapabilityOffer::required(KnownCapability::EncryptedRecords.id()),
            CapabilityOffer::optional(0x9000),
        ],
    }
}

fn session_start() -> WireMessage {
    WireMessage::SessionStart {
        session_id: id(1),
        transfer_id: id(2),
        role: WireRole::Sender,
    }
}

fn hello_ack() -> WireMessage {
    WireMessage::HelloAck {
        version: wire_version(),
        capabilities: vec![CapabilityOffer::required(
            KnownCapability::EncryptedRecords.id(),
        )],
    }
}

fn auth(kind: AuthMessageKind, body: Vec<u8>) -> WireMessage {
    WireMessage::Auth { kind, body }
}

fn authenticated_prefix() -> Vec<WireMessage> {
    vec![
        hello(),
        hello_ack(),
        auth(AuthMessageKind::Init, vec![1, 2, 3]),
        auth(AuthMessageKind::Response, vec![4, 5, 6]),
        auth(AuthMessageKind::Confirm, vec![4]),
        session_start(),
        WireMessage::SessionAccept { session_id: id(1) },
        WireMessage::ManifestOffer {
            session_id: id(1),
            file_count: 1,
            total_size: 3,
            body: vec![9, 8, 7],
        },
        WireMessage::ManifestAccept { session_id: id(1) },
    ]
}

fn error_of<T>(result: Result<T, WireError>) -> Option<WireError> {
    result.err()
}

#[test]
fn canonical_encoding_round_trips_without_payload_debug_leak() {
    let codec = WireCodec::default();
    let message = WireMessage::Auth {
        kind: AuthMessageKind::Response,
        body: vec![0xde, 0xad, 0xbe, 0xef],
    };
    let first = codec.encode(wire_version(), 7, &message).unwrap();
    let second = codec.encode(wire_version(), 7, &message).unwrap();
    assert_eq!(first, second);
    let frame = codec.decode_exact(&first).unwrap();
    assert_eq!(frame.header.sequence, 7);
    assert_eq!(frame.header.correlation_id, 7);
    assert!(frame.payload == FramePayload::Message(message.clone()));
    assert!(!message.description().contains("dead"));

    let acknowledgement = WireMessage::HelloAck {
        version: WireVersion::new(1, 4),
        capabilities: vec![CapabilityOffer::optional(0x9000)],
    };
    let acknowledgement_frame = codec
        .decode_exact(
            &codec
                .encode_with_correlation(wire_version(), 8, 7, &acknowledgement)
                .unwrap(),
        )
        .unwrap();
    assert_eq!(acknowledgement_frame.header.correlation_id, 7);
    assert!(acknowledgement_frame.payload == FramePayload::Message(acknowledgement));

    let unsupported_ack = WireMessage::HelloAck {
        version: WireVersion::new(2, 0),
        capabilities: Vec::new(),
    };
    assert!(matches!(
        codec.encode(wire_version(), 9, &unsupported_ack),
        Err(WireError::UnsupportedVersion {
            found: WireVersion { major: 2, minor: 0 },
            supported_major: 1,
        })
    ));
}

#[test]
fn decoder_handles_one_byte_fragments_and_coalesced_frames() {
    let codec = WireCodec::default();
    let first = codec.encode(wire_version(), 1, &hello()).unwrap();
    let second = codec
        .encode(wire_version(), 2, &WireMessage::Error { code: 9 })
        .unwrap();
    let mut decoder = FrameDecoder::new(codec);
    let mut frames = Vec::new();
    for byte in &first {
        frames.extend(decoder.push(std::slice::from_ref(byte)).unwrap());
    }
    assert_eq!(frames.len(), 1);
    assert_eq!(frames[0].header.sequence, 1);
    frames.extend(decoder.push(&second).unwrap());
    assert_eq!(frames.len(), 2);
    assert_eq!(frames[1].header.sequence, 2);
    decoder.finish().unwrap();
}

#[test]
fn decoder_rejects_oversized_length_before_body_allocation() {
    let codec = WireCodec::new(wire_version(), WireLimits::new(32, 32, 4, 64));
    let mut bytes = vec![0_u8; WIRE_HEADER_LEN];
    bytes[..4].copy_from_slice(&WIRE_MAGIC);
    bytes[4] = wire_version().major;
    bytes[5] = wire_version().minor;
    bytes[7] = MessageType::Error.to_wire();
    bytes[8..12].copy_from_slice(&33_u32.to_be_bytes());
    assert!(matches!(
        codec.decode(&bytes),
        Err(WireError::FrameTooLarge {
            length: 33,
            max: 32
        })
    ));
}

#[test]
fn unknown_mandatory_fails_and_unknown_optional_is_preserved() {
    let codec = WireCodec::default();
    let mut mandatory = vec![0_u8; WIRE_HEADER_LEN];
    mandatory[..4].copy_from_slice(&WIRE_MAGIC);
    mandatory[4] = wire_version().major;
    mandatory[5] = wire_version().minor;
    mandatory[7] = 0x7f;
    mandatory[8..12].copy_from_slice(&0_u32.to_be_bytes());
    assert!(matches!(
        codec.decode(&mandatory),
        Err(WireError::UnknownMandatoryMessage { message_type: 0x7f })
    ));

    let optional = codec
        .encode(wire_version(), 3, &WireMessage::Error { code: 4 })
        .unwrap();
    let mut optional_unknown = optional;
    optional_unknown[7] = OPTIONAL_MESSAGE_BIT | 0x7f;
    let frame = codec.decode_exact(&optional_unknown).unwrap();
    assert!(
        frame.payload
            == FramePayload::UnknownOptional {
                message_type: OPTIONAL_MESSAGE_BIT | 0x7f,
                body: vec![0, 4],
            }
    );

    let mut known_optional = codec
        .encode(wire_version(), 4, &WireMessage::Error { code: 5 })
        .unwrap();
    known_optional[7] |= OPTIONAL_MESSAGE_BIT;
    assert!(matches!(
        codec.decode_exact(&known_optional),
        Err(WireError::KnownMessageMarkedOptional {
            message_type: MessageType::Error,
        })
    ));
}

#[test]
fn version_negotiation_allows_future_minor_but_rejects_major_change() {
    assert_eq!(
        wire_version().negotiate(WireVersion::new(1, 4)).unwrap(),
        wire_version()
    );
    assert!(matches!(
        wire_version().negotiate(WireVersion::new(2, 0)),
        Err(WireError::UnsupportedVersion { .. })
    ));
    let codec = WireCodec::default();
    let frame = codec.encode(WireVersion::new(1, 9), 1, &hello()).unwrap();
    assert_eq!(codec.decode_exact(&frame).unwrap().header.version.minor, 9);
}

#[test]
fn capability_validation_preserves_unknown_optional_and_rejects_required() {
    let codec = WireCodec::default();
    let message = hello();
    let frame = codec
        .decode_exact(&codec.encode(wire_version(), 1, &message).unwrap())
        .unwrap();
    assert!(frame.payload == FramePayload::Message(message));

    let required = WireMessage::Hello {
        capabilities: vec![CapabilityOffer::required(0x9000)],
    };
    assert!(matches!(
        codec.encode(wire_version(), 1, &required),
        Err(WireError::UnsupportedCapability { id: 0x9000 })
    ));

    let duplicate = WireMessage::Hello {
        capabilities: vec![CapabilityOffer::optional(1), CapabilityOffer::optional(1)],
    };
    assert!(matches!(
        codec.encode(wire_version(), 1, &duplicate),
        Err(WireError::DuplicateCapability { id: 1 })
    ));
}

#[test]
fn malformed_payload_and_trailing_bytes_fail_closed() {
    let codec = WireCodec::default();
    let mut bytes = codec
        .encode(wire_version(), 1, &WireMessage::Error { code: 1 })
        .unwrap();
    bytes.push(0);
    let payload_len = (bytes.len() - WIRE_HEADER_LEN) as u32;
    bytes[8..12].copy_from_slice(&payload_len.to_be_bytes());
    assert!(matches!(
        codec.decode_exact(&bytes),
        Err(WireError::TrailingBytes)
    ));

    let mut bad_flags = codec.encode(wire_version(), 1, &hello()).unwrap();
    bad_flags[6] = 1;
    assert!(matches!(
        codec.decode(&bad_flags),
        Err(WireError::ReservedFlags { flags: 1 })
    ));
}

#[test]
fn wire_state_rejects_duplicate_negotiation_and_wrong_order() {
    let mut state = WireState::default();
    state.accept(&hello()).unwrap();
    assert_eq!(state.accept(&hello()), Err(WireError::DuplicateNegotiation));
    assert!(matches!(
        state.accept(&WireMessage::ChunkAck {
            session_id: id(1),
            file_id: id(2),
            index: 0,
            offset: 0,
            length: 1,
        }),
        Err(WireError::InvalidState { .. }) | Err(WireError::InvalidSession)
    ));
}

#[test]
fn wire_state_rejects_auth_response_before_init() {
    let mut state = WireState::default();
    state.accept(&hello()).unwrap();
    state.accept(&hello_ack()).unwrap();
    assert!(matches!(
        state.accept(&auth(AuthMessageKind::Response, vec![1, 2])),
        Err(WireError::InvalidState { .. })
    ));
}

#[test]
fn wire_state_rejects_hello_ack_missing_required_capability() {
    let mut state = WireState::default();
    state.accept(&hello()).unwrap();

    assert_eq!(
        state.accept(&WireMessage::HelloAck {
            version: wire_version(),
            capabilities: Vec::new(),
        }),
        Err(WireError::MissingRequiredCapability {
            id: KnownCapability::EncryptedRecords.id(),
        })
    );
}

#[test]
fn wire_state_requires_one_auth_response_before_confirmation() {
    let mut state = WireState::default();
    state.accept(&hello()).unwrap();
    state.accept(&hello_ack()).unwrap();
    state.accept(&auth(AuthMessageKind::Init, vec![1])).unwrap();
    assert!(matches!(
        state.accept(&auth(AuthMessageKind::Confirm, vec![2])),
        Err(WireError::InvalidState { .. })
    ));
    state
        .accept(&auth(AuthMessageKind::Response, vec![3]))
        .unwrap();
    assert!(matches!(
        state.accept(&auth(AuthMessageKind::Response, vec![4])),
        Err(WireError::InvalidState { .. })
    ));
    state
        .accept(&auth(AuthMessageKind::Confirm, vec![5]))
        .unwrap();
    assert_eq!(state.phase(), ProtocolPhase::Authenticated);
}

#[test]
fn wire_state_accepts_ordered_session_and_pause_resume() {
    let mut state = WireState::default();
    for message in authenticated_prefix() {
        state.accept(&message).unwrap();
    }
    assert_eq!(state.phase(), ProtocolPhase::Transferring);
    state
        .accept(&WireMessage::Pause { session_id: id(1) })
        .unwrap();
    assert!(state.paused());
    assert!(matches!(
        state.accept(&WireMessage::ChunkRequest {
            session_id: id(1),
            file_id: id(2),
            index: 0,
            offset: 0,
            length: 1,
        }),
        Err(WireError::InvalidState { .. })
    ));
    state
        .accept(&WireMessage::Resume { session_id: id(1) })
        .unwrap();
    assert!(!state.paused());
    state
        .accept(&WireMessage::Close {
            session_id: id(1),
            reason: 0,
        })
        .unwrap();
    assert_eq!(state.phase(), ProtocolPhase::Closed);
}

#[test]
fn wire_state_rejects_duplicate_and_out_of_order_sequences() {
    let codec = WireCodec::default();
    let first = codec.encode(wire_version(), 4, &hello()).unwrap();
    let duplicate = codec
        .encode(wire_version(), 4, &WireMessage::Error { code: 1 })
        .unwrap();
    let earlier = codec
        .encode(wire_version(), 3, &WireMessage::Error { code: 2 })
        .unwrap();
    let first = codec.decode_exact(&first).unwrap();
    let duplicate = codec.decode_exact(&duplicate).unwrap();
    let earlier = codec.decode_exact(&earlier).unwrap();
    let mut state = WireState::default();

    state.accept_frame(&first).unwrap();
    assert_eq!(
        state.accept_frame(&duplicate),
        Err(WireError::InvalidSequence {
            sequence: 4,
            previous: 4,
        })
    );
    assert_eq!(
        state.accept_frame(&earlier),
        Err(WireError::InvalidSequence {
            sequence: 3,
            previous: 4,
        })
    );
}

fn known_messages() -> Vec<WireMessage> {
    vec![
        hello(),
        WireMessage::HelloAck {
            version: wire_version(),
            capabilities: vec![CapabilityOffer::optional(0x9000)],
        },
        auth(AuthMessageKind::Init, vec![1, 2]),
        session_start(),
        WireMessage::SessionAccept { session_id: id(1) },
        WireMessage::ManifestOffer {
            session_id: id(1),
            file_count: 1,
            total_size: 2,
            body: vec![1, 2],
        },
        WireMessage::ManifestAccept { session_id: id(1) },
        WireMessage::ChunkRequest {
            session_id: id(1),
            file_id: id(2),
            index: 3,
            offset: 4,
            length: 5,
        },
        WireMessage::ChunkData {
            session_id: id(1),
            file_id: id(2),
            index: 3,
            offset: 4,
            length: 2,
            body: vec![7, 8],
        },
        WireMessage::ChunkAck {
            session_id: id(1),
            file_id: id(2),
            index: 3,
            offset: 4,
            length: 5,
        },
        WireMessage::Pause { session_id: id(1) },
        WireMessage::Resume { session_id: id(1) },
        WireMessage::Cancel {
            session_id: id(1),
            reason: 6,
        },
        WireMessage::Close {
            session_id: id(1),
            reason: 7,
        },
        WireMessage::Error { code: 8 },
    ]
}

#[test]
fn every_known_message_has_deterministic_round_trip() {
    let codec = WireCodec::default();
    for (sequence, message) in known_messages().into_iter().enumerate() {
        let sequence = sequence as u64 + 1;
        let encoded = codec.encode_with_correlation(
            wire_version(),
            sequence,
            sequence.saturating_sub(1),
            &message,
        );
        let encoded = encoded.unwrap();
        let frame = codec.decode_exact(&encoded).unwrap();
        assert_eq!(frame.header.sequence, sequence);
        assert_eq!(frame.header.correlation_id, sequence.saturating_sub(1));
        assert!(frame.payload == FramePayload::Message(message));
    }
}

#[test]
fn decoder_buffer_limit_rejects_unbounded_input() {
    let codec = WireCodec::new(wire_version(), WireLimits::new(32, 32, 4, 64));
    let mut decoder = FrameDecoder::new(codec);
    assert_eq!(
        error_of(decoder.push(&[0; 65])),
        Some(WireError::BufferTooLarge { max: 64 })
    );
}

#[test]
fn decoder_rejects_invalid_limits_before_buffering_input() {
    let codec = WireCodec::new(wire_version(), WireLimits::new(32, 33, 4, 64));
    let mut decoder = FrameDecoder::new(codec);

    assert_eq!(
        error_of(decoder.push(&[0])),
        Some(WireError::InvalidLimits)
    );
}

#[test]
fn mutated_frame_bytes_never_panic_or_allocate_over_configured_limit() {
    let codec = WireCodec::new(wire_version(), WireLimits::new(128, 64, 4, 256));
    let valid = codec
        .encode(
            wire_version(),
            1,
            &auth(AuthMessageKind::Init, vec![1, 2, 3, 4]),
        )
        .unwrap();

    for index in 0..valid.len() {
        for value in [0_u8, 1, 0x7f, 0xff] {
            let mut mutated = valid.clone();
            mutated[index] = value;
            let _ = codec.decode(&mutated);
        }
    }
}

#[test]
fn wire_errors_map_to_neutral_backend_protocol_categories() {
    assert!(matches!(
        BackendError::from(WireError::UnsupportedVersion {
            found: WireVersion::new(2, 0),
            supported_major: 1,
        }),
        BackendError::Protocol {
            reason: BackendProtocolError::UnsupportedVersion,
        }
    ));
    assert!(matches!(
        BackendError::from(WireError::FrameTooLarge { length: 9, max: 8 }),
        BackendError::Protocol {
            reason: BackendProtocolError::ResourceLimit,
        }
    ));
    assert!(!format!(
        "{:?}",
        BackendError::from(WireError::MalformedMessage {
            message_type: MessageType::Auth,
            reason: "test",
        })
    )
    .contains("test"));
}

#[test]
fn encrypted_record_payload_leaves_room_for_authentication_tag() {
    let maximum_plaintext = WireLimits::default().max_frame_payload - AEAD_TAG_LEN;

    assert_eq!(maximum_plaintext, MAX_FRAME_PAYLOAD - AEAD_TAG_LEN);
}

struct TestSecret([u8; 32]);

impl std::fmt::Debug for TestSecret {
    fn fmt(&self, formatter: &mut std::fmt::Formatter<'_>) -> std::fmt::Result {
        formatter.write_str("TestSecret([REDACTED])")
    }
}

#[test]
fn secret_debug_is_redacted() {
    let secret = TestSecret([0x7a; 32]);
    let debug = format!("{secret:?}");

    assert_eq!(secret.0, [0x7a; 32]);
    assert_eq!(debug, "TestSecret([REDACTED])");
    assert!(!debug.contains("7a"));
}

#[test]
fn error_message_has_the_exact_bytes() {
    let bytes = WireCodec::default()
        .encode_with_correlation(
            WireVersion::new(1, 3),
            0x0102_0304_0506_0708,
            9,
            &WireMessage::Error { code: 0xabcd },
        )
        .unwrap();
    assert_eq!(
        bytes,
        vec![
            b'D', b'R', b'F', b'T', 1, 3, 0, MessageType::Error.to_wire(), 0, 0, 0, 2, 1, 2, 3, 4,
            5, 6, 7, 8, 0, 0, 0, 0, 0, 0, 0, 9, 0xab, 0xcd
        ]
    );
}

#[test]
fn frames_in_one_push_come_out_in_order() {
    let codec = WireCodec::default();
    let mut stream = Vec::new();
    for (sequence, message) in known_messages().iter().enumerate() {
        stream.extend(
            codec
                .encode(wire_version(), sequence as u64, message)
                .unwrap(),
        );
    }
    let mut decoder = FrameDecoder::new(codec);
    let frames: Vec<WireFrame> = decoder.push(&stream).unwrap();
    assert_eq!(frames.len(), known_messages().len());
    for (index, (frame, message)) in frames.iter().zip(known_messages()).enumerate() {
        assert_eq!(frame.header.sequence, index as u64);
        assert!(frame.payload == FramePayload::Message(message));
    }
    decoder.finish().unwrap();
}

#[test]
fn cut_off_stream_is_reported_at_its_end() {
    let codec = WireCodec::default();
    let frame = codec.encode(wire_version(), 1, &hello()).unwrap();
    let mut decoder = FrameDecoder::new(codec);
    assert!(decoder.push(&frame[..frame.len() - 1]).unwrap().is_empty());
    assert_eq!(decoder.finish(), Err(WireError::Truncated));
}

#[test]
fn frame_length_is_known_from_the_header_alone() {
    let codec = WireCodec::default();
    let frame = codec
        .encode(wire_version(), 1, &auth(AuthMessageKind::Init, vec![7; 40]))
        .unwrap();
    assert_eq!(
        codec.frame_length(&frame[..WIRE_HEADER_LEN]).ok(),
        Some(frame.len())
    );
    let invalid = WireCodec::new(wire_version(), WireLimits::new(32, 33, 4, 64));
    assert_eq!(
        error_of(invalid.frame_length(&frame[..WIRE_HEADER_LEN])),
        Some(WireError::InvalidLimits)
    );
}

#[test]
fn broken_magic_and_foreign_major_version_are_refused() {
    let codec = WireCodec::default();
    let good = codec.encode(wire_version(), 1, &hello()).unwrap();
    let mut magic = good.clone();
    magic[0] = b'X';
    assert_eq!(error_of(codec.decode(&magic)), Some(WireError::InvalidMagic));
    let mut version = good.clone();
    version[4] = 9;
    assert!(matches!(
        codec.decode(&version),
        Err(WireError::UnsupportedVersion {
            found: WireVersion { major: 9, minor: 0 },
            supported_major: 1,
        })
    ));
    assert!(matches!(
        codec.decode(&good[..10]),
        Err(WireError::Incomplete { .. })
    ));
    let mut trailing = good;
    trailing.push(0);
    assert_eq!(
        error_of(codec.decode_exact(&trailing)),
        Some(WireError::TrailingBytes)
    );
}

#[test]
fn broken_connections_are_retried_and_protocol_faults_are_not() {
    let broken = BackendError::from(WireError::Io {
        kind: IoErrorKind::NotFound,
    });
    assert!(broken.failure_kind().is_retryable());
    let refused = BackendError::from(WireError::TrailingBytes);
    assert!(!refused.failure_kind().is_retryable());
}

#[test]
fn closed_and_repeated_frames_change_nothing() {
    let mut state = WireState::default();
    for message in authenticated_prefix() {
        state.accept(&message).unwrap();
    }
    state
        .accept(&WireMessage::Close {
            session_id: id(1),
            reason: 0,
        })
        .unwrap();
    for message in known_messages() {
        assert!(state.accept(&message).is_err());
    }
    assert_eq!(state.phase(), ProtocolPhase::Closed);
}

#[test]
fn message_types_have_their_codes_and_classes() {
    for message in known_messages() {
        let kind = message.message_type();
        assert_eq!(MessageType::from_wire(kind.to_wire()), Some(kind));
        assert_eq!(message.class(), kind.class());
    }
    assert_eq!(MessageType::Hello.class(), MessageClass::Negotiation);
    assert_eq!(MessageType::Auth.class(), MessageClass::Authentication);
    assert_eq!(MessageType::from_wire(0x7f), None);
}

#[test]
fn descriptions_hide_bodies_and_identifiers() {
    let message = WireMessage::ChunkData {
        session_id: id(0x5e),
        file_id: id(0x5f),
        index: 3,
        offset: 4,
        length: 2,
        body: vec![0xca, 0xfe],
    };
    let other = WireMessage::ChunkData {
        session_id: id(1),
        file_id: id(2),
        index: 3,
        offset: 4,
        length: 2,
        body: vec![0, 0],
    };
    assert_eq!(message.description(), other.description());
}

#[test]
fn faults_are_put_in_words() {
    for (error, text) in [
        (
            WireError::Incomplete { needed: 12 },
            "wire frame is incomplete; need 12 more bytes",
        ),
        (
            WireError::UnsupportedVersion {
                found: WireVersion { major: 2, minor: 1 },
                supported_major: 1,
            },
            "wire version WireVersion { major: 2, minor: 1 } is unsupported; major version 1 is required",
        ),
        (
            WireError::ReservedFlags { flags: 0x0a },
            "wire frame has reserved flags 0x0a",
        ),
        (
            WireError::UnknownMandatoryMessage { message_type: 0x7f },
            "unknown mandatory wire message type 0x7f",
        ),
        (
            WireError::InvalidState {
                phase: ProtocolPhase::Closing,
                message_type: MessageType::ChunkData,
            },
            "wire message ChunkData is invalid in protocol phase Closing",
        ),
        (
            WireError::FieldTooLarge {
                field: "body",
                length: 9,
                max: 8,
            },
            "wire message field body length 9 exceeds limit 8",
        ),
        (
            WireError::Io {
                kind: IoErrorKind::HostUnreachable,
            },
            "wire I/O failed with HostUnreachable",
        ),
        (
            WireError::Io {
                kind: IoErrorKind::BrokenPipe,
            },
            "wire I/O failed with BrokenPipe",
        ),
    ] {
        assert_eq!(error.message(), text);
    }
}
