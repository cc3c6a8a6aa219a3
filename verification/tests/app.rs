use drift::backend::{BackendError, BackendRequestError, ReceiveRequest, SendRequest, TransferBackend};
use drift::commands::{
    apply_relay, manifests_match, plan_receive, plan_receive_directory, plan_send,
    recovery_metadata, resume_root, validate_recovery_inputs, validate_recovery_sources,
    AppCommand, AppCommandError, AppError, RecoveryCheck,
};
use drift::croc::CrocBackend;
use drift::destination::DestinationError;
use drift::file_name::file_name;
use drift::ident::TransferId;
use drift::io_kind::IoErrorKind;
use drift::manifest::{FileEntry, TransferManifest};
use drift::platform::{reveal_command, settle_reveal, RevealError};
use drift::presentation::{
    accepts_event, apply_event_to_presentation, event_for_session, AppTransferUpdate, EventBoard,
    TransferPresentation,
};
use drift::progress::Progress;
use drift::resume::{
    ResumeCapabilities, ResumeRequest, ResumeState, DEFAULT_RESUME_CHUNK_SIZE,
    RESUME_SCHEMA_VERSION,
};
use drift::resume_store::{JsonStore, ResumeRead, StorageError};
use drift::screen::{
    map_destination_error, map_notification, map_receive_notification,
    map_settings_error, map_source_scan_error, map_transfer_command_error, recovery_candidates,
    safe_failure_message, transfer_snapshot, ReceiveCommandErrorKind, ReceiveEvent, RecoveryKind,
    RelayStatus, SendCommandErrorKind, SendEvent, SettingsCommandErrorKind,
    TransferCommandErrorKind,
};
use drift::session::{
    Role, TransferCapability, TransferError, TransferEvent, TransferFailureKind, TransferSession,
    TransferState,
};
use drift::settings::{
    ConfigPathError, DriftSettings, Environment, PathProbe, Platform, RelaySettings, SettingsError,
    SettingsValidationError,
};
use drift::source_scan::SourceScanError;
use drift::transfer::TransferManager;
use drift::transfer_model::TransferNotification;

fn defaults() -> DriftSettings {
    DriftSettings::default(&Environment {
        home: Some("/home/a".into()),
        user_profile: None,
        app_data: None,
        xdg_config_home: None,
    })
}

fn relay_settings(enabled: bool, url: &str) -> DriftSettings {
    DriftSettings {
        relay: RelaySettings {
            enabled,
            url: Some(url.into()),
        },
        ..defaults()
    }
}

#[test]
fn startup_error_message_does_not_include_configuration_details() {
    let error = AppError::Settings(SettingsError::Parse);
    assert_eq!(
        error.user_message(),
        "Drift could not load valid settings. Check the configuration file."
    );
    assert!(!error.user_message().contains("not-json"));
    assert_eq!(
        AppError::ConfigPath(ConfigPathError::HomeDirectoryUnavailable).message(),
        "configuration path is unavailable"
    );
    assert_eq!(
        AppError::Runtime(IoErrorKind::Other).user_message(),
        "Drift could not initialize its transfer runtime."
    );
}

#[test]
fn command_debug_redacts_receive_code() {
    let command = AppCommand::Receive {
        code: "secret-transfer-code".into(),
        output_directory: Some("/tmp/received".into()),
    };
    let debug = command.description();
    assert!(!debug.contains("secret-transfer-code"));
    assert!(debug.contains("REDACTED"));
    assert_eq!(
        debug,
        "Receive { code: \"[REDACTED]\", output_directory_configured: true }"
    );
    assert_eq!(
        AppCommand::Cancel {
            transfer_id: TransferId::from_bits(1)
        }
        .description(),
        "Cancel { transfer_id: TransferId(00000000-0000-0000-0000-000000000001) }"
    );
}

#[test]
fn relay_settings_are_snapshotted_for_send_and_receive_requests() {
    let first_settings = relay_settings(true, "https://first-relay.example.test");
    let send = apply_relay(
        SendRequest::new(vec!["source.txt".into()]).unwrap(),
        &first_settings,
    );
    let receive = apply_relay(
        ReceiveRequest::new("transfer-code", "/received").unwrap(),
        &first_settings,
    );
    let second = first_settings.with_relay(RelaySettings {
        enabled: true,
        url: Some("https://second-relay.example.test".into()),
    });
    assert_eq!(
        second.relay.effective_url(),
        Some("https://second-relay.example.test")
    );
    assert_eq!(
        send.relay.as_deref(),
        Some("https://first-relay.example.test")
    );
    assert_eq!(
        receive.relay.as_deref(),
        Some("https://first-relay.example.test")
    );
}

#[test]
fn disabled_relay_settings_leave_default_request_routing_untouched() {
    let settings = DriftSettings {
        relay: RelaySettings {
            enabled: false,
            url: Some("https://configured-but-disabled.example.test".into()),
        },
        ..defaults()
    };
    let request = apply_relay(
        SendRequest::new(vec!["source.txt".into()]).unwrap(),
        &settings,
    );
    assert_eq!(request.relay, None);
}

#[test]
fn dispatch_reports_invalid_settings_as_load_failure() {
    let settings = relay_settings(true, "ftp://relay.example.test");
    let fault = settings
        .validate(PathProbe::Directory, PathProbe::Directory)
        .unwrap_err();
    let loaded = Err(SettingsError::Validation(fault));
    let error =
        plan_receive_directory(&loaded, "transfer-code", &Some("/received".into()), "/default")
            .unwrap_err();

    assert!(matches!(
        &error,
        AppCommandError::SettingsLoad(SettingsError::Validation(
            SettingsValidationError::InvalidRelayUrl
        ))
    ));
    assert_eq!(error.user_message(), "Settings could not be loaded.");
    assert!(plan_send(&loaded, vec!["a".into()]).is_err());
}

#[test]
fn commands_become_requests() {
    let settings = Ok(relay_settings(true, "https://relay.example.test"));
    let send = plan_send(&settings, vec!["a".into(), "b".into()]).ok().unwrap();
    assert_eq!(send.paths.len(), 2);
    assert_eq!(send.relay.as_deref(), Some("https://relay.example.test"));
    assert!(matches!(
        plan_send(&settings, Vec::new()),
        Err(AppCommandError::InvalidRequest(
            BackendError::InvalidRequest(BackendRequestError::EmptyPaths)
        ))
    ));
    assert!(matches!(
        plan_receive_directory(&settings, " ", &None, "/default"),
        Err(AppCommandError::EmptyTransferCode)
    ));
    assert_eq!(
        plan_receive_directory(&settings, "code", &None, "/default").unwrap(),
        "/default"
    );
    let receive = plan_receive(&settings, Ok(()), "code", "/in").ok().unwrap();
    assert_eq!(receive.output_directory, "/in");
    assert_eq!(receive.relay.as_deref(), Some("https://relay.example.test"));
}

#[test]
fn receive_dispatch_rejects_unavailable_destination_before_backend() {
    let settings = Ok(defaults());
    assert!(matches!(
        plan_receive(
            &settings,
            Err(DestinationError::Unavailable),
            "transfer-code",
            "/missing/nested"
        ),
        Err(AppCommandError::OutputDirectoryUnavailable)
    ));
    for (error, expected) in [
        (DestinationError::Empty, "The receive folder is unavailable."),
        (
            DestinationError::NotWritable,
            "The receive folder is not writable.",
        ),
        (
            DestinationError::SymlinkNotAllowed,
            "The receive folder is unavailable.",
        ),
    ] {
        assert_eq!(AppCommandError::from(error).user_message(), expected);
    }
}

#[test]
fn pause_and_resume_commands_report_unsupported_backend_safely() {
    let manager = TransferManager::new(&CrocBackend::default());
    let pause = manager
        .pause(TransferId::new())
        .map_err(AppCommandError::from);
    assert!(matches!(
        pause,
        Err(AppCommandError::Transfer(
            TransferError::CapabilityUnavailable(TransferCapability::Pause)
        ))
    ));
    assert_eq!(
        AppCommandError::Transfer(TransferError::CapabilityUnavailable(
            TransferCapability::Pause
        ))
        .user_message(),
        "Pause is unavailable for this backend."
    );
}

#[test]
fn reveal_errors_have_safe_user_messages() {
    let unsupported = AppCommandError::from(RevealError::Unsupported);
    let failed = AppCommandError::from(RevealError::Failed);

    assert!(matches!(unsupported, AppCommandError::RevealFailed));
    assert!(matches!(failed, AppCommandError::RevealFailed));
    assert_eq!(
        failed.user_message(),
        "The completed receive destination could not be revealed."
    );
}

fn resume_state(id: TransferId, request: ResumeRequest) -> ResumeState {
    ResumeState {
        schema_version: RESUME_SCHEMA_VERSION,
        transfer_id: id,
        backend: "croc".into(),
        backend_version: Some("11.2.x".into()),
        capabilities: ResumeCapabilities {
            pause: false,
            resume: false,
        },
        request,
        manifest: None,
        file_id: 0,
        chunk_size: DEFAULT_RESUME_CHUNK_SIZE,
        file_size: 0,
        completed_chunks: Vec::new(),
        file_digest: None,
        temp_file_path: None,
    }
}

fn manifest(sizes: &[(&str, u64)]) -> TransferManifest {
    TransferManifest::new(
        TransferId::new(),
        sizes
            .iter()
            .map(|(path, size)| FileEntry::new(path, *size).unwrap())
            .collect(),
    )
    .unwrap()
}

#[test]
fn recovery_rejects_missing_sender_source_before_backend_start() {
    let id = TransferId::new();
    let file = FileEntry::new("source.bin", 1).unwrap();
    let manifest = TransferManifest::new(id, vec![file.clone()]).unwrap();
    let state = ResumeState {
        manifest: Some(manifest),
        file_id: file.file_id,
        file_size: 1,
        ..resume_state(
            id,
            ResumeRequest::Send {
                source_paths: vec!["/root/missing-source.bin".into()],
            },
        )
    };
    match validate_recovery_inputs(&state, None, None) {
        Ok(RecoveryCheck::Sources(paths)) => {
            assert_eq!(paths, vec!["/root/missing-source.bin".to_owned()])
        }
        _ => panic!("the sources are to be looked at"),
    }
    assert!(matches!(
        validate_recovery_sources(&state, None),
        Err(AppCommandError::RecoveryInvalid)
    ));
}

#[test]
fn recovery_looks_at_sources_codes_and_directories() {
    let state = resume_state(
        TransferId::new(),
        ResumeRequest::Receive {
            output_directory: "/in".into(),
        },
    );
    assert!(matches!(
        validate_recovery_inputs(&state, None, None),
        Err(AppCommandError::EmptyTransferCode)
    ));
    assert!(matches!(
        validate_recovery_inputs(&state, Some("  "), None),
        Err(AppCommandError::EmptyTransferCode)
    ));
    assert!(matches!(
        validate_recovery_inputs(&state, Some("code"), Some("/other")),
        Ok(RecoveryCheck::Directory(directory)) if directory == "/other"
    ));
    assert!(matches!(
        validate_recovery_inputs(&state, Some("code"), None),
        Ok(RecoveryCheck::Directory(directory)) if directory == "/in"
    ));
    assert!(matches!(
        recovery_metadata(Ok(None)),
        Err(AppCommandError::RecoveryUnavailable)
    ));
    assert!(matches!(
        recovery_metadata(Err(StorageError::Serialization)),
        Err(AppCommandError::RecoveryStorage(StorageError::Serialization))
    ));
    assert!(recovery_metadata(Ok(Some(state.clone()))).ok() == Some(state));
}

#[test]
fn changed_sources_are_not_sent_again() {
    let expected = manifest(&[("a", 1), ("b", 2)]);
    assert!(manifests_match(&expected, &manifest(&[("b", 2), ("a", 1)])));
    assert!(manifests_match(&expected, &expected));
    assert!(!manifests_match(&expected, &manifest(&[("a", 1), ("c", 2)])));
    assert!(!manifests_match(&expected, &manifest(&[("a", 2), ("b", 1)])));
    assert!(!manifests_match(&expected, &manifest(&[("a", 3)])));
    let mut touched = manifest(&[("a", 1), ("b", 2)]);
    touched.files[0].modified_at = Some(7);
    assert!(!manifests_match(&expected, &touched));
    let mut rewritten = manifest(&[("a", 1), ("b", 2)]);
    rewritten.files[0].relative_path = "a/".into();
    assert!(manifests_match(&expected, &rewritten));
    rewritten.files[0].relative_path = "./a".into();
    assert!(!manifests_match(&expected, &rewritten));
    let state = ResumeState {
        manifest: Some(expected.clone()),
        ..resume_state(
            TransferId::new(),
            ResumeRequest::Send {
                source_paths: vec!["a".into()],
            },
        )
    };
    assert!(validate_recovery_sources(&state, Some(&expected)).is_ok());
    assert!(validate_recovery_sources(&state, Some(&touched)).is_err());
}

#[test]
fn metadata_is_kept_beside_the_configuration() {
    assert_eq!(resume_root("/home/a/config/config.json"), "/home/a/config/state");
    assert_eq!(resume_root("/config.json"), "/state");
    assert_eq!(resume_root("config.json"), "./state");
    assert_eq!(resume_root("/"), "./state");
}

#[test]
fn directories_are_shown_by_the_program_of_the_platform() {
    let mac = reveal_command(Platform::MacOs, false).unwrap();
    assert_eq!((mac.program, mac.option), ("open", Some("-R")));
    let linux = reveal_command(Platform::Other, true).unwrap();
    assert_eq!((linux.program, linux.option), ("xdg-open", None));
    assert_eq!(
        reveal_command(Platform::Other, false).err(),
        Some(RevealError::Unsupported)
    );
    assert_eq!(settle_reveal(Some(true)), Ok(()));
    assert_eq!(settle_reveal(Some(false)), Err(RevealError::Failed));
    assert_eq!(settle_reveal(None), Err(RevealError::Failed));
}

fn presentation(transfer_id: TransferId, state: TransferState) -> TransferPresentation {
    TransferPresentation {
        transfer_id,
        role: Role::Sender,
        state,
        progress: Progress {
            transferred_bytes: 0,
            total_bytes: 0,
            speed_bps: 0,
        },
        code_available: false,
        error: None,
        failure_kind: None,
    }
}

fn progress_update(transfer_id: TransferId, transferred: u64) -> AppTransferUpdate {
    AppTransferUpdate {
        transfer_id,
        event: TransferEvent::Progress {
            transferred,
            total: 100,
            speed_bps: 10,
        },
        presentation: TransferPresentation {
            progress: Progress {
                transferred_bytes: transferred,
                total_bytes: 100,
                speed_bps: 10,
            },
            ..presentation(transfer_id, TransferState::Transferring)
        },
    }
}

#[test]
fn presentation_eta_only_exists_for_active_transfer() {
    let mut session = TransferSession::new(Role::Sender, "croc");
    session.transition(TransferState::Connecting).unwrap();
    session.transition(TransferState::Connected).unwrap();
    session.transition(TransferState::Authenticating).unwrap();
    session.transition(TransferState::Negotiating).unwrap();
    session.transition(TransferState::Transferring).unwrap();
    session.update_progress_with_total(25, 100, 25).unwrap();
    let presentation = TransferPresentation::from_session(&session);
    assert_eq!(presentation.eta_seconds(), Some(3));

    session.transition(TransferState::Verifying).unwrap();
    let presentation = TransferPresentation::from_session(&session);
    assert_eq!(presentation.eta_seconds(), None);
}

#[test]
fn refresh_event_preserves_distinct_lifecycle_states() {
    let session = TransferSession::new(Role::Receiver, "croc");
    assert_eq!(event_for_session(&session), TransferEvent::Created);
}

#[test]
fn unknown_transfer_notifications_are_ignored() {
    let mut board = EventBoard::new();
    let transfer_id = TransferId::new();
    let update = board.build_update(
        None,
        TransferNotification {
            transfer_id,
            event: TransferEvent::Created,
        },
    );

    assert_eq!(update, None);
    assert!(board.presentation(transfer_id).is_none());
}

#[test]
fn late_events_cannot_reopen_terminal_presentations() {
    assert!(!accepts_event(
        TransferState::Completed,
        &TransferEvent::Progress {
            transferred: 1,
            total: 2,
            speed_bps: 1,
        }
    ));
    assert!(!accepts_event(
        TransferState::Failed,
        &TransferEvent::Completed
    ));
    assert!(accepts_event(
        TransferState::Completed,
        &TransferEvent::Completed
    ));
}

#[test]
fn invalid_progress_does_not_replace_the_last_snapshot() {
    let transfer_id = TransferId::new();
    let session = TransferSession::new(Role::Sender, "croc");
    let mut current = presentation(transfer_id, TransferState::Transferring);
    current.progress = Progress {
        transferred_bytes: 25,
        total_bytes: 100,
        speed_bps: 25,
    };

    assert_eq!(
        apply_event_to_presentation(
            &mut current,
            &session,
            &TransferEvent::Progress {
                transferred: 10,
                total: 100,
                speed_bps: 10,
            },
            true,
        ),
        None
    );
    assert_eq!(current.progress.transferred_bytes, 25);
}

#[test]
fn coalescing_keeps_latest_progress_before_terminal_event() {
    let transfer_id = TransferId::new();
    let mut board = EventBoard::new();

    board.queue_update(progress_update(transfer_id, 10));
    board.queue_update(progress_update(transfer_id, 20));
    board.queue_update(AppTransferUpdate {
        transfer_id,
        event: TransferEvent::Completed,
        presentation: presentation(transfer_id, TransferState::Completed),
    });

    let told = board.take_published();
    assert_eq!(
        told[0].event,
        TransferEvent::Progress {
            transferred: 20,
            total: 100,
            speed_bps: 10,
        }
    );
    assert_eq!(told[1].event, TransferEvent::Completed);
    board.flush_pending();
    assert!(board.take_published().is_empty());
}

#[test]
fn high_frequency_progress_keeps_one_latest_update() {
    let transfer_id = TransferId::new();
    let mut board = EventBoard::new();
    for transferred in 1..=100 {
        board.queue_update(progress_update(transfer_id, transferred));
    }

    board.flush_pending();

    let told = board.take_published();
    assert_eq!(told.len(), 1);
    assert_eq!(
        told[0].event,
        TransferEvent::Progress {
            transferred: 100,
            total: 100,
            speed_bps: 10,
        }
    );
}

#[test]
fn lag_refresh_removes_missing_presentations_safely() {
    let session = TransferSession::new(Role::Sender, "croc");
    let mut board = EventBoard::new();
    board.notify(
        Some(&session),
        TransferNotification {
            transfer_id: session.id,
            event: TransferEvent::Connecting,
        },
    );
    board.take_published();

    board.refresh_sessions(&Vec::new());

    assert!(board.presentation(session.id).is_none());
    assert!(board.take_published().is_empty());
}

#[test]
fn refresh_shows_sessions_as_they_are() {
    let mut session = TransferSession::new(Role::Receiver, "croc");
    session.set_code("code");
    session.transition(TransferState::Connecting).unwrap();
    let mut board = EventBoard::new();
    board.queue_update(progress_update(session.id, 3));
    board.refresh_sessions(&vec![&session]);
    let told = board.take_published();
    assert_eq!(told.len(), 1);
    assert_eq!(told[0].event, TransferEvent::Connecting);
    assert!(told[0].presentation.code_available);
    assert_eq!(
        board.presentation(session.id),
        Some(&TransferPresentation::from_session(&session))
    );
    board.flush_pending();
    assert!(board.take_published().is_empty());
}

#[test]
fn notifications_change_what_is_shown_step_by_step() {
    let mut session = TransferSession::new(Role::Sender, "croc");
    let mut board = EventBoard::new();
    let notify = |board: &mut EventBoard, session: &TransferSession, event| {
        board.notify(
            Some(session),
            TransferNotification {
                transfer_id: session.id,
                event,
            },
        )
    };
    notify(&mut board, &session, TransferEvent::Started);
    notify(&mut board, &session, TransferEvent::CodeAvailable);
    notify(
        &mut board,
        &session,
        TransferEvent::Progress {
            transferred: 5,
            total: 10,
            speed_bps: 1,
        },
    );
    session.error = Some("private".into());
    session.failure_kind = Some(TransferFailureKind::Network);
    notify(&mut board, &session, TransferEvent::Failed);
    notify(&mut board, &session, TransferEvent::Completed);
    let shown = board.presentation(session.id).unwrap();
    assert_eq!(shown.state, TransferState::Failed);
    assert_eq!(shown.progress.transferred_bytes, 5);
    assert!(!shown.code_available);
    assert!(shown.retryable());
    let told: Vec<TransferEvent> = board
        .take_published()
        .into_iter()
        .map(|update| update.event)
        .collect();
    assert_eq!(
        told,
        vec![
            TransferEvent::Started,
            TransferEvent::CodeAvailable,
            TransferEvent::Progress {
                transferred: 5,
                total: 10,
                speed_bps: 1,
            },
            TransferEvent::Failed,
        ]
    );
}

#[test]
fn transfer_snapshot_exposes_safe_metadata_and_backend_capabilities() {
    let mut session = TransferSession::new(Role::Sender, "croc");
    let manifest = TransferManifest::new(
        session.id,
        vec![FileEntry::new("nested/private.txt", 7).unwrap()],
    )
    .unwrap();
    session.set_manifest(manifest);
    session.state = TransferState::Failed;
    let presentation = TransferPresentation {
        transfer_id: session.id,
        role: session.role,
        state: TransferState::Failed,
        progress: session.progress,
        code_available: false,
        error: Some("/private/path/raw backend output".into()),
        failure_kind: Some(TransferFailureKind::ProcessFailure),
    };
    let snapshot = transfer_snapshot(
        &presentation,
        Some(&session),
        CrocBackend::default().capabilities(),
        Some(false),
        Some("Croc could not complete the transfer."),
        false,
    );

    assert_eq!(snapshot.display_name.as_deref(), Some("private.txt"));
    assert_eq!(snapshot.file_count, Some(1));
    assert_eq!(
        snapshot.error.as_deref(),
        Some("Croc could not complete the transfer.")
    );
    assert!(!snapshot
        .error
        .as_deref()
        .unwrap_or_default()
        .contains("raw backend output"));
    assert!(!snapshot.progress_supported);
    assert!(!snapshot.pause_supported);
    assert!(!snapshot.resume_supported);
    assert_eq!(snapshot.relay, RelayStatus::Standard);
    assert!(!snapshot.destination_available);
}

#[test]
fn failures_without_a_label_have_a_general_message() {
    assert_eq!(
        safe_failure_message(TransferState::Failed, None, true, "fallback").as_deref(),
        Some("The transfer stopped unexpectedly. Retry is available.")
    );
    assert_eq!(
        safe_failure_message(TransferState::Failed, None, false, "fallback").as_deref(),
        Some("fallback")
    );
    assert_eq!(
        safe_failure_message(TransferState::Completed, Some("label"), false, "fallback"),
        None
    );
}

#[test]
fn updates_are_shown_on_the_side_of_their_transfer() {
    let id = TransferId::new();
    let mut update = AppTransferUpdate {
        transfer_id: id,
        event: TransferEvent::CodeAvailable,
        presentation: presentation(id, TransferState::Transferring),
    };
    assert!(
        map_notification(&update, Some("the-code"), None)
            == Some(SendEvent::CodeAvailable {
                transfer_id: id,
                code: "the-code".into()
            })
    );
    assert!(map_notification(&update, None, None).is_none());
    assert!(map_receive_notification(&update, None).is_none());
    update.presentation.role = Role::Receiver;
    assert!(map_notification(&update, Some("the-code"), None).is_none());
    assert!(map_receive_notification(&update, None).is_none());
    update.event = TransferEvent::Failed;
    update.presentation.state = TransferState::Failed;
    assert!(
        map_receive_notification(&update, None)
            == Some(ReceiveEvent::Failed {
                transfer_id: id,
                message: "The receive transfer failed.".into(),
                retryable: false
            })
    );
    update.event = TransferEvent::CapabilityUnavailable {
        capability: TransferCapability::Pause,
    };
    assert!(map_receive_notification(&update, None).is_none());
}

#[test]
fn errors_have_a_kind_for_each_view() {
    assert_eq!(
        map_source_scan_error(SourceScanError::Cancelled),
        SendCommandErrorKind::ScanCancelled
    );
    assert_eq!(
        map_source_scan_error(SourceScanError::SizeOverflow),
        SendCommandErrorKind::ScanFailed
    );
    assert_eq!(
        map_transfer_command_error(&AppCommandError::Transfer(
            TransferError::CapabilityUnavailable(TransferCapability::Pause)
        )),
        TransferCommandErrorKind::Unsupported
    );
    assert_eq!(
        map_transfer_command_error(&AppCommandError::RecoveryInvalid),
        TransferCommandErrorKind::Failed
    );
    assert_eq!(
        map_settings_error(&AppCommandError::Settings(SettingsError::Validation(
            SettingsValidationError::InvalidRelayUrl
        ))),
        SettingsCommandErrorKind::InvalidRelay
    );
    assert_eq!(
        map_settings_error(&AppCommandError::Settings(SettingsError::Serialization)),
        SettingsCommandErrorKind::SaveFailed
    );
    assert_eq!(
        map_destination_error(&AppCommandError::OutputDirectoryNotWritable),
        ReceiveCommandErrorKind::DestinationNotWritable
    );
    assert_eq!(
        map_destination_error(&AppCommandError::EmptyOutputDirectory),
        ReceiveCommandErrorKind::DestinationUnavailable
    );
}

#[test]
fn recoverable_transfers_are_offered_with_their_side() {
    let reads = vec![
        ResumeRead::Parsed(resume_state(
            TransferId::from_bits(2),
            ResumeRequest::Receive {
                output_directory: "/in".into(),
            },
        )),
        ResumeRead::Unparsable,
    ];
    let discovery = JsonStore::new("/store".to_owned())
        .discover_resumes(Ok(reads)).ok().unwrap();
    let candidates = recovery_candidates(&discovery);
    assert_eq!(candidates.len(), 1);
    assert_eq!(candidates[0].transfer_id, TransferId::from_bits(2));
    assert_eq!(candidates[0].kind, RecoveryKind::Receive);
}

#[test]
fn names_of_files_are_the_last_part_of_their_path() {
    for (path, name) in [
        ("a/b.txt", Some("b.txt")),
        ("a/b/", Some("b")),
        ("a/b/.", Some("b")),
        ("b", Some("b")),
        ("a/..", None),
        ("/", None),
        (".", None),
        ("", None),
    ] {
        assert_eq!(file_name(path).as_deref(), name);
        assert_eq!(
            std::path::Path::new(path)
                .file_name()
                .and_then(|name| name.to_str()),
            name
        );
    }
}
