use drift::backend::{
    BackendAvailability, BackendCapability, BackendControlResult, BackendError, BackendEvent,
    BackendOperationError, BackendProtocolError, BackendRequestError, BackendUnavailableReason,
    ReceiveRequest, SendRequest, TransferBackend,
};
use drift::croc::{
    check_version, collect_output, map_spawn_error, validate_completion, BoundedOutput,
    CrocBackend, OutputCapture, OutputReader, DIAGNOSTIC_LIMIT, SUPPORTED_CROC_VERSION_RANGE,
};
use drift::croc_text::{parse_croc_line, parse_croc_version, redact_text, CrocParseError, CrocVersion};
use drift::io_kind::IoErrorKind;
use drift::native::{NativeBackend, NATIVE_PROTOCOL_VERSION};
use drift::relay::RelayConfig;
use drift::session::TransferFailureKind;
use std::time::Duration;

#[test]
fn receive_request_debug_redacts_code_and_destination() {
    let request = ReceiveRequest::new("secret-code", "/private/receive-folder").unwrap();
    let debug = request.description();

    assert!(!debug.contains("secret-code"));
    assert!(!debug.contains("/private/receive-folder"));
    assert!(debug.contains("output_directory_configured"));
}

#[test]
fn receive_request_rejects_empty_destination() {
    assert!(ReceiveRequest::new("secret-code", "").is_err());
}

#[test]
fn classifies_backend_failures_for_retry_policy() {
    assert_eq!(
        BackendError::Timeout {
            timeout_ms: 1000,
        }
        .failure_kind(),
        TransferFailureKind::Network
    );
    assert_eq!(
        BackendError::Io(IoErrorKind::Other).failure_kind(),
        TransferFailureKind::ProcessInterruption
    );
    assert_eq!(
        BackendError::OperationFailed {
            reason: BackendOperationError::ExecutionFailed,
        }
        .failure_kind(),
        TransferFailureKind::ProcessFailure
    );
    assert_eq!(
        BackendError::InvalidRequest(BackendRequestError::EmptyPaths).failure_kind(),
        TransferFailureKind::InvalidRequest
    );
    assert!(
        TransferFailureKind::Network.is_retryable()
            && TransferFailureKind::ProcessInterruption.is_retryable()
    );
    assert!(!TransferFailureKind::ProcessFailure.is_retryable());
}

#[test]
fn backend_capabilities_are_explicit_for_pause_resume() {
    let backend = CrocBackend::default();
    let info = backend.info();

    assert_eq!(info.name, "croc");
    assert_eq!(info.version, Some("11.2.x"));
    assert_eq!(info.availability, BackendAvailability::Ready);
    assert!(!backend.capabilities().supports(BackendCapability::Pause));
    assert!(!backend.capabilities().supports(BackendCapability::Resume));
    assert!(backend.capabilities().supports(BackendCapability::Direct));
    assert!(backend.capabilities().supports(BackendCapability::Relay));
    assert_eq!(backend.version(), Some("11.2.x"));
}

#[test]
fn control_result_distinguishes_confirmed_unsupported_and_terminal() {
    assert_ne!(
        BackendControlResult::Confirmed,
        BackendControlResult::Unsupported
    );
    assert_ne!(
        BackendControlResult::Unsupported,
        BackendControlResult::Terminal
    );
}

#[test]
fn builds_sender_invocation_with_relay_before_subcommand() {
    let backend = CrocBackend::new("croc").with_relay("relay.example");
    let request = SendRequest::new(vec!["one.txt".into()]).unwrap();
    assert_eq!(
        backend.send_args(&request).unwrap(),
        vec![
            "--relay",
            "relay.example",
            "--disable-clipboard",
            "send",
            "one.txt"
        ]
    );
}

#[test]
fn request_relay_overrides_backend_fallback_for_both_roles() {
    let backend = CrocBackend::new("croc").with_relay("fallback.example");
    let send = SendRequest::new(vec!["one.txt".into()])
        .unwrap()
        .with_relay("request.example");
    let receive = ReceiveRequest::new("secret-code", "/tmp/out")
        .unwrap()
        .with_relay("request.example");

    assert_eq!(
        backend.send_args(&send).unwrap(),
        vec![
            "--relay",
            "request.example",
            "--disable-clipboard",
            "send",
            "one.txt"
        ]
    );
    assert_eq!(
        backend.receive_args(&receive).unwrap(),
        vec![
            "--relay",
            "request.example",
            "--yes",
            "--disable-clipboard",
            "--out",
            "/tmp/out"
        ]
    );
}

#[test]
fn builds_receiver_invocation_without_logging_code() {
    let backend = CrocBackend::new("croc");
    let request = ReceiveRequest::new("secret-code", "/tmp/out").unwrap();
    let debug = request.description();
    assert!(!debug.contains("secret-code"));
    assert_eq!(
        backend.receive_args(&request).unwrap(),
        vec!["--yes", "--disable-clipboard", "--out", "/tmp/out"]
    );
}

#[test]
fn parses_only_the_documented_code_line() {
    assert!(
        parse_croc_line("Code is: alpha-bravo").unwrap()
            == Some(BackendEvent::CodeGenerated {
                code: "alpha-bravo".into()
            })
    );
    assert!(parse_croc_line("Sending file (1 MB)").unwrap().is_none());
    assert!(matches!(
        parse_croc_line("Code is: alpha bravo"),
        Err(CrocParseError::InvalidTransferCode)
    ));
    assert!(matches!(
        parse_croc_line("Code is:alpha-bravo"),
        Err(CrocParseError::InvalidTransferCode)
    ));
    assert!(!BackendEvent::CodeGenerated {
        code: "alpha-bravo".into()
    }
    .description()
    .contains("alpha-bravo"));
}

#[test]
fn code_lines_may_be_coloured() {
    assert!(
        parse_croc_line("\u{1b}[32mCode is: green-code\u{1b}[0m").unwrap()
            == Some(BackendEvent::CodeGenerated {
                code: "green-code".into()
            })
    );
}

#[test]
fn parses_supported_and_unsupported_versions() {
    assert_eq!(
        parse_croc_version(b"croc version v11.2.2-build\n"),
        Some(CrocVersion {
            major: 11,
            minor: 2,
            patch: 2,
        })
    );
    assert_eq!(
        parse_croc_version(b"v11.1.9\n"),
        Some(CrocVersion {
            major: 11,
            minor: 1,
            patch: 9,
        })
    );
    assert_eq!(parse_croc_version(b"not croc\n"), None);
}

#[test]
fn output_that_is_no_text_is_still_read() {
    assert_eq!(
        parse_croc_version(b"\xff\xfe\ncroc v11.2.7\n"),
        Some(CrocVersion {
            major: 11,
            minor: 2,
            patch: 7,
        })
    );
}

fn output_of(bytes: &[u8]) -> BoundedOutput {
    let mut output = BoundedOutput::new();
    output.absorb(bytes, 8192);
    output
}

#[test]
fn preflight_classifies_missing_and_unsupported_versions() {
    assert!(matches!(
        map_spawn_error(IoErrorKind::NotFound),
        BackendError::Unavailable {
            reason: BackendUnavailableReason::DependencyMissing,
        }
    ));
    assert!(matches!(
        check_version(&output_of(b"v11.1.9\n"), &output_of(b""), true),
        Err(BackendError::IncompatibleVersion { found, .. }) if found == "11.1.9"
    ));
    assert!(check_version(&output_of(b"v11.2.2-build\n"), &output_of(b""), true).is_ok());
}

#[test]
fn preflight_rejects_version_invocation_failure() {
    assert!(matches!(
        check_version(&output_of(b"broken\n"), &output_of(b""), false),
        Err(BackendError::Protocol {
            reason: BackendProtocolError::VersionCheckFailed,
        })
    ));
}

#[test]
fn validates_empty_requests() {
    assert!(SendRequest::new(Vec::new()).is_err());
    assert!(ReceiveRequest::new("", "/tmp").is_err());
}

fn read_all(pieces: &[&[u8]]) -> Result<(OutputCapture, Vec<BackendEvent>), BackendError> {
    let mut reader = OutputReader::new();
    let mut events = Vec::new();
    for piece in pieces {
        let (next, seen) = reader.absorb(piece)?;
        reader = next;
        events.extend(seen);
    }
    let (capture, last) = reader.finish()?;
    events.extend(last);
    Ok((capture, events))
}

#[test]
fn captures_process_output() {
    let (stdout, _) = read_all(&[b"Code is: secret-code\n"]).unwrap();
    let (stderr, _) = read_all(&[b"warning\n"]).unwrap();
    let output = collect_output(&stdout, &stderr, &None).unwrap();
    assert_eq!(output.stdout, b"Code is: [REDACTED]\n");
    assert_eq!(output.stderr, b"warning\n");
    assert_eq!(output.code.as_deref(), Some("secret-code"));
}

#[test]
fn code_is_seen_however_the_output_is_cut() {
    let text: &[u8] = b"Sending\nCode is: live-code\nrest";
    let (_, whole) = read_all(&[text]).unwrap();
    let bytes: Vec<&[u8]> = text.chunks(1).collect();
    let (_, parts) = read_all(&bytes).unwrap();
    let expected = BackendEvent::CodeGenerated {
        code: "live-code".into(),
    };
    assert!(whole == vec![expected.clone()]);
    assert!(parts == vec![expected]);
}

#[test]
fn keeps_receiver_code_out_of_args_and_diagnostics() {
    let backend = CrocBackend::new("croc");
    let request = ReceiveRequest::new("receiver-secret", "/tmp/out").unwrap();
    let args = backend.receive_args(&request).unwrap();
    let printed = format!("args={}\nsecret=receiver-secret\n", args.join(" "));
    let (stdout, _) = read_all(&[printed.as_bytes()]).unwrap();
    let (stderr, _) = read_all(&[]).unwrap();
    let collected =
        collect_output(&stdout, &stderr, &Some("receiver-secret".to_owned())).unwrap();
    let output = String::from_utf8(collected.stdout).unwrap();
    assert!(output.contains("--out /tmp/out"));
    assert!(output.contains("secret=[REDACTED]"));
    assert!(!output.contains("receiver-secret"));
}

#[test]
fn rejects_malformed_or_missing_code_signals() {
    assert!(matches!(
        read_all(&[b"Code is: malformed code\n"]),
        Err(BackendError::Protocol {
            reason: BackendProtocolError::MalformedMessage,
        })
    ));

    let (stdout, _) = read_all(&[b"Sending file (1 MB)\n"]).unwrap();
    let (stderr, _) = read_all(&[]).unwrap();
    let output = collect_output(&stdout, &stderr, &None).unwrap();
    assert!(matches!(
        validate_completion(true, true, &output),
        Err(BackendError::Protocol {
            reason: BackendProtocolError::MissingRequiredSignal,
        })
    ));
    assert!(validate_completion(true, false, &output).is_ok());
}

#[test]
fn maps_non_zero_exit_to_neutral_error() {
    let (stdout, _) = read_all(&[]).unwrap();
    let (stderr, _) = read_all(&[b"failed\n"]).unwrap();
    let output = collect_output(&stdout, &stderr, &None).unwrap();
    assert!(matches!(
        validate_completion(false, true, &output),
        Err(BackendError::OperationFailed {
            reason: BackendOperationError::ExecutionFailed,
        })
    ));
}

#[test]
fn two_different_codes_break_the_run() {
    let (stdout, _) = read_all(&[b"Code is: one-code\n"]).unwrap();
    let (stderr, _) = read_all(&[b"Code is: other-code\n"]).unwrap();
    assert!(matches!(
        collect_output(&stdout, &stderr, &None),
        Err(BackendError::Protocol {
            reason: BackendProtocolError::MalformedMessage,
        })
    ));
}

#[test]
fn bounds_long_diagnostics_without_losing_code_parsing() {
    let noise = vec![b'x'; 80 * 1024];
    let (stdout, _) = read_all(&[]).unwrap();
    let (stderr, events) = read_all(&[&noise, b"\nCode is: bounded-code\n"]).unwrap();
    assert!(
        events
            == vec![BackendEvent::CodeGenerated {
                code: "bounded-code".into()
            }]
    );
    let output = collect_output(&stdout, &stderr, &None).unwrap();
    assert!(output.stderr.len() <= DIAGNOSTIC_LIMIT + 32);
    assert!(String::from_utf8_lossy(&output.stderr).contains("output truncated"));
}

#[test]
fn redaction_replaces_every_occurrence() {
    assert_eq!(
        redact_text("a code b code", Some("code"), false),
        "a [REDACTED] b [REDACTED]"
    );
    assert_eq!(redact_text("nothing here", None, false), "nothing here");
}

#[test]
fn reports_neutral_identity_and_unavailable_readiness() {
    let info = NativeBackend::new().info();

    assert_eq!(info.name, "native");
    assert_eq!(info.version, Some(NATIVE_PROTOCOL_VERSION));
    assert_eq!(
        info.availability,
        BackendAvailability::Unavailable {
            reason: BackendUnavailableReason::NotImplemented,
        }
    );
    assert!(!info.capabilities.supports(BackendCapability::Direct));
    assert!(!info.capabilities.supports(BackendCapability::Relay));
}

#[test]
fn fails_closed_without_protocol_dependencies() {
    let backend = NativeBackend::new();
    let request = SendRequest::new(vec!["source".into()]).unwrap();

    assert!(matches!(
        backend.declared_ready(),
        Err(BackendError::Unavailable {
            reason: BackendUnavailableReason::NotImplemented,
        })
    ));
    assert!(matches!(
        backend.refuse_send(&request),
        BackendError::Unavailable {
            reason: BackendUnavailableReason::NotImplemented,
        }
    ));
}

#[test]
fn descriptions_of_backends_hide_the_relay() {
    let backend = CrocBackend::new("/opt/croc")
        .with_relay("relay.example")
        .with_timeout(50);
    assert_eq!(
        backend.description(),
        "CrocBackend { executable: \"/opt/croc\", relay_configured: true, timeout: 50ms }"
    );
    for (milliseconds, text) in [
        (0u64, "0ns"),
        (999, "999ms"),
        (1_000, "1s"),
        (1_500, "1.5s"),
        (61_250, "61.25s"),
        (2_001, "2.001s"),
    ] {
        let shown = CrocBackend::default().with_timeout(milliseconds).description();
        assert!(shown.contains(&format!("timeout: {text} }}")));
        assert_eq!(
            text,
            format!("{:?}", Duration::from_millis(milliseconds))
        );
    }
    assert_eq!(SUPPORTED_CROC_VERSION_RANGE, "11.2.x");
}

#[test]
fn relay_servers_have_their_defaults() {
    let config = RelayConfig::default();
    assert_eq!(config.bind_address, "0.0.0.0");
    assert_eq!(config.port, 9009);
    assert_eq!(config.room_timeout_secs, 600);
    assert_eq!(config.max_connections, 1024);
}

#[test]
fn backend_errors_say_what_went_wrong() {
    for (error, text) in [
        (
            BackendError::InvalidRequest(BackendRequestError::EmptyCode),
            "invalid backend request: receive request code must not be empty",
        ),
        (
            BackendError::Unavailable {
                reason: BackendUnavailableReason::NotConfigured,
            },
            "backend is unavailable: not configured",
        ),
        (BackendError::Io(IoErrorKind::Other), "backend I/O failed"),
        (
            BackendError::Timeout { timeout_ms: 1500 },
            "backend operation timed out after 1.5s",
        ),
        (
            BackendError::IncompatibleVersion {
                found: "10.0.0".into(),
                supported: "11.2.x",
            },
            "backend version 10.0.0 is unsupported; expected 11.2.x",
        ),
        (
            BackendError::Protocol {
                reason: BackendProtocolError::InvalidState,
            },
            "backend protocol failure: backend protocol state was invalid",
        ),
        (
            BackendError::OperationFailed {
                reason: BackendOperationError::Internal,
            },
            "backend operation failed: backend operation failed internally",
        ),
    ] {
        assert_eq!(error.message(), text);
    }
}

#[test]
fn codes_are_taken_out_of_every_line() {
    let code = "7421-alpha-bravo";
    let shown = redact_text(
        "sending\n 7421-alpha-bravo7421-alpha-bravo\nCode is: 7421-alpha-bravo\n7421-\u{1b}[31malpha-bravo",
        Some(code),
        false,
    );
    assert_eq!(
        shown,
        "sending\n [REDACTED][REDACTED]\nCode is: [REDACTED]\n[REDACTED]"
    );
}

#[test]
fn codes_with_letters_of_the_replacement_are_taken_out_too() {
    assert_eq!(
        redact_text("a 42-ACTED-T b\n42-ACTED-T\n", Some("42-ACTED-T"), true),
        "a [REDACTED] b\n[REDACTED]\n\n[output truncated]"
    );
    // The words that never came from the output may spell a code.
    assert_eq!(
        redact_text("Code is: 42\n", Some("Code"), false),
        "Code is: [REDACTED]\n"
    );
}
