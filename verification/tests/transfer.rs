use drift::backend::{
    BackendCapability, BackendError, BackendEvent, BackendOperationError, BackendProtocolError,
    ReceiveRequest, SendRequest,
};
use drift::croc::CrocBackend;
use drift::destination::DestinationError;
use drift::ident::TransferId;
use drift::io_kind::IoErrorKind;
use drift::manifest::{FileEntry, TransferManifest};
use drift::progress::ProgressError;
use drift::resume::{
    ResumeCapabilities, ResumeRequest, ResumeState, DEFAULT_RESUME_CHUNK_SIZE,
    RESUME_SCHEMA_VERSION,
};
use drift::resume_store::StorageError;
use drift::session::{
    TransferCapability, TransferError, TransferEvent, TransferFailureKind, TransferState,
};
use drift::staging::{Publication, PublishStep, ReceiveFinalizeReport, ReceiveStaging, ReceiveStagingError};
use drift::transfer::{monitored_outcome, TransferManager};
use drift::transfer_model::{
    map_receive_staging_creation_error, map_storage_error, AttemptEnd, AttemptStep, CancelStep,
    EstablishStep, FinishStep, RecoveryPlan, RetryRequest,
};

fn manager() -> TransferManager {
    TransferManager::new(&CrocBackend::default())
}

fn recovering_manager() -> TransferManager {
    TransferManager::with_resume_store(&CrocBackend::default(), "croc")
}

fn send_request() -> SendRequest {
    SendRequest::new(vec!["ignored".into()]).unwrap()
}

fn staging() -> ReceiveStaging {
    ReceiveStaging::create("/received", TransferId::new(), Vec::new())
}

fn start_receive(manager: &mut TransferManager) -> TransferId {
    manager
        .start_receive(
            ReceiveRequest::new("receive-code", "/received").unwrap(),
            staging(),
        )
        .id
}

/// Brings an attempt as far as a transfer that runs.
fn run(manager: &mut TransferManager, id: TransferId, receives: bool) {
    let step = if receives {
        manager.contact_receiver(id, false)
    } else {
        manager.contact_sender(id, false).unwrap()
    };
    assert!(matches!(step, AttemptStep::Contact));
    let mut step = manager.contacted(id, Ok(()), false);
    while let AttemptStep::Establish(next) = step {
        step = manager.establish(id, next, false).unwrap();
    }
    assert!(matches!(step, AttemptStep::Monitor));
}

fn running_send(manager: &mut TransferManager) -> TransferId {
    let id = manager.start_send(send_request()).id;
    run(manager, id, false);
    id
}

fn ended(step: FinishStep) -> AttemptEnd {
    match step {
        FinishStep::Ended(end) => end,
        FinishStep::Finalize => panic!("nothing was received"),
    }
}

fn state(manager: &TransferManager, id: TransferId) -> TransferState {
    manager.session(id).unwrap().state
}

fn events(manager: &mut TransferManager) -> Vec<TransferEvent> {
    manager
        .take_events()
        .into_iter()
        .map(|notification| notification.event)
        .collect()
}

fn report() -> ReceiveFinalizeReport {
    match Publication::new(1).unwrap().done(Ok(())).done(Ok(())).step() {
        PublishStep::Finished(Ok(report)) => report,
        _ => panic!("publishing did not finish"),
    }
}

fn timeout() -> BackendError {
    BackendError::Timeout {
        timeout_ms: 50,
    }
}

fn execution_failed() -> BackendError {
    BackendError::OperationFailed {
        reason: BackendOperationError::ExecutionFailed,
    }
}

#[test]
fn serializes_state_changes_and_events() {
    let mut manager = manager();
    let id = manager.start_send(send_request()).id;
    manager.contact_sender(id, false).unwrap();
    assert_eq!(
        events(&mut manager),
        vec![TransferEvent::Created, TransferEvent::Connecting]
    );
    assert_eq!(state(&manager, id), TransferState::Connecting);
    assert!(events(&mut manager).is_empty());
}

#[test]
fn cancels_registered_session() {
    let mut manager = manager();
    let id = start_receive(&mut manager);
    assert_eq!(manager.cancel(id), Ok(CancelStep::Signal));
    ended(manager.finish_attempt(id, Ok(()), true));
    assert_eq!(state(&manager, id), TransferState::Cancelled);
    assert_eq!(
        events(&mut manager),
        vec![
            TransferEvent::Created,
            TransferEvent::CodeAvailable,
            TransferEvent::Cancelled
        ]
    );
    assert_eq!(manager.cancel(id), Ok(CancelStep::Done));
}

#[test]
fn validates_progress_order_and_ignores_late_updates() {
    let mut manager = manager();
    let id = manager.start_send(send_request()).id;

    assert_eq!(
        manager.update_progress(id, 1, 10, 1),
        Err(TransferError::ProgressNotAllowed(TransferState::Created))
    );
    run(&mut manager, id, false);

    manager.update_progress(id, 4, 10, 2).unwrap();
    assert_eq!(manager.session(id).unwrap().progress.transferred_bytes, 4);
    assert_eq!(
        manager.update_progress(id, 3, 10, 2),
        Err(TransferError::InvalidProgress(
            ProgressError::TransferredDecreased
        ))
    );
    assert_eq!(
        manager.update_progress(id, 5, 11, 2),
        Err(TransferError::InvalidProgress(ProgressError::TotalChanged))
    );
    ended(manager.finish_attempt(id, Ok(()), false));
    assert_eq!(state(&manager, id), TransferState::Completed);
    assert_eq!(
        manager.update_progress(id, 10, 10, 2),
        Err(TransferError::ProgressNotAllowed(TransferState::Completed))
    );
    assert_eq!(manager.session(id).unwrap().progress.transferred_bytes, 4);
}

#[test]
fn fails_transfer_when_backend_total_conflicts_with_manifest() {
    let mut manager = manager();
    let manifest = TransferManifest::new(
        TransferId::new(),
        vec![FileEntry::new("file.txt", 10).unwrap()],
    )
    .unwrap();
    let id = manager
        .start_send_with_manifest(send_request(), Some(manifest))
        .unwrap()
        .id;
    run(&mut manager, id, false);

    let error = manager
        .apply_backend_event(
            id,
            BackendEvent::Progress {
                transferred: 1,
                total: 11,
                speed_bps: 1,
            },
        )
        .unwrap_err();
    assert!(matches!(
        &error,
        BackendError::Protocol {
            reason: BackendProtocolError::MalformedMessage,
        }
    ));

    ended(manager.finish_attempt(id, Err(error), false));
    let session = manager.session(id).unwrap();
    assert_eq!(session.state, TransferState::Failed);
    assert_eq!(session.progress.transferred_bytes, 0);
}

#[test]
fn propagates_code_and_capability_without_leaking_code_in_events() {
    let mut manager = manager();
    let id = running_send(&mut manager);
    manager
        .apply_backend_event(
            id,
            BackendEvent::CapabilityUnavailable {
                capability: BackendCapability::Progress,
            },
        )
        .unwrap();
    manager
        .apply_backend_event(
            id,
            BackendEvent::CapabilityUnavailable {
                capability: BackendCapability::Relay,
            },
        )
        .unwrap();
    manager
        .apply_backend_event(
            id,
            BackendEvent::CodeGenerated {
                code: "manager-code".into(),
            },
        )
        .unwrap();
    ended(manager.finish_attempt(id, Ok(()), false));
    let told = events(&mut manager);
    assert_eq!(
        told,
        vec![
            TransferEvent::Created,
            TransferEvent::Connecting,
            TransferEvent::Connected,
            TransferEvent::Authenticating,
            TransferEvent::Negotiating,
            TransferEvent::Started,
            TransferEvent::CapabilityUnavailable {
                capability: TransferCapability::Progress
            },
            TransferEvent::CodeAvailable,
            TransferEvent::Verifying,
            TransferEvent::Completed,
        ]
    );
    let session = manager.session(id).unwrap();
    assert_eq!(session.code.as_deref(), Some("manager-code"));
    assert_eq!(session.state, TransferState::Completed);
    assert!(!session.description().contains("manager-code"));
}

#[test]
fn stores_validated_sender_manifest_on_the_transfer_session() {
    let mut manager = manager();
    let manifest = TransferManifest::new(
        TransferId::new(),
        vec![FileEntry::new("folder/file.txt", 4).unwrap()],
    )
    .unwrap();
    let id = manager
        .start_send_with_manifest(
            SendRequest::new(vec!["folder".into()]).unwrap(),
            Some(manifest),
        )
        .unwrap()
        .id;
    let session = manager.session(id).unwrap();
    let session_manifest = session.manifest.as_ref().unwrap();

    assert_eq!(session_manifest.transfer_id, id);
    assert_eq!(session_manifest.total_size, 4);
    assert_eq!(session_manifest.files[0].relative_path, "folder/file.txt");
    assert_eq!(session.progress.total_bytes, 4);
}

#[test]
fn invalid_manifests_start_nothing() {
    let mut manager = manager();
    let invalid = TransferManifest {
        transfer_id: TransferId::new(),
        files: Vec::new(),
        total_size: 0,
    };
    assert_eq!(
        manager
            .start_send_with_manifest(send_request(), Some(invalid))
            .unwrap_err(),
        TransferError::Backend("invalid sender manifest".into())
    );
    assert!(manager.sessions().is_empty());
    assert!(events(&mut manager).is_empty());
}

#[test]
fn stores_safe_message_for_backend_failure() {
    let mut manager = manager();
    let id = running_send(&mut manager);
    ended(manager.finish_attempt(id, Err(execution_failed()), false));
    assert_eq!(
        manager.session(id).unwrap().error.as_deref(),
        Some("backend operation failed")
    );
}

#[test]
fn cancellation_reaps_process_and_emits_one_terminal_event() {
    let mut manager = manager();
    let id = running_send(&mut manager);
    assert_eq!(manager.cancel(id), Ok(CancelStep::Signal));
    ended(manager.finish_attempt(id, Err(BackendError::Cancelled), false));
    assert_eq!(manager.cancel(id), Ok(CancelStep::Done));
    assert_eq!(state(&manager, id), TransferState::Cancelled);
    let endings = events(&mut manager)
        .into_iter()
        .filter(|event| {
            matches!(
                event,
                TransferEvent::Completed | TransferEvent::Failed | TransferEvent::Cancelled
            )
        })
        .count();
    assert_eq!(endings, 1);
}

#[test]
fn retryable_failure_starts_new_attempt_with_same_safe_request() {
    let mut manager = manager();
    let old = running_send(&mut manager);
    ended(manager.finish_attempt(old, Err(timeout()), false));
    let session = manager.session(old).unwrap();
    assert_eq!(session.state, TransferState::Failed);
    assert_eq!(session.failure_kind, Some(TransferFailureKind::Network));
    assert_eq!(manager.check_retry(old), Ok(None));
    let (request, manifest) = match manager.take_retry(old) {
        Ok(RetryRequest::Send { request, manifest }) => (request, manifest),
        _ => panic!("the request to send was not kept"),
    };
    assert_eq!(request.paths, vec!["ignored".to_owned()]);
    let new = manager
        .start_send_with_manifest(request, manifest)
        .unwrap()
        .id;
    assert_ne!(old, new);
    assert_eq!(state(&manager, old), TransferState::Failed);
    assert_eq!(
        manager.check_retry(old),
        Err(TransferError::RetryNotAllowed(TransferState::Failed))
    );
}

#[test]
fn process_failure_is_not_automatically_retryable() {
    let mut manager = manager();
    let id = running_send(&mut manager);
    ended(manager.finish_attempt(id, Err(execution_failed()), false));
    assert_eq!(
        manager.session(id).unwrap().failure_kind,
        Some(TransferFailureKind::ProcessFailure)
    );
    assert_eq!(
        manager.check_retry(id),
        Err(TransferError::RetryNotAllowed(TransferState::Failed))
    );
}

#[test]
fn croc_pause_and_resume_report_capability_unavailable() {
    let mut manager = manager();
    let id = manager.start_send(send_request()).id;
    assert_eq!(
        manager.pause(id),
        Err(TransferError::CapabilityUnavailable(
            TransferCapability::Pause
        ))
    );
    assert_eq!(
        manager.resume(id),
        Err(TransferError::CapabilityUnavailable(
            TransferCapability::Resume
        ))
    );
}

#[test]
fn receive_rejects_file_destination_as_filesystem_error() {
    assert_eq!(
        map_receive_staging_creation_error(ReceiveStagingError::Destination(
            DestinationError::NotDirectory
        )),
        TransferError::Filesystem("receive destination is unavailable".into())
    );
    assert_eq!(
        map_receive_staging_creation_error(ReceiveStagingError::Io(IoErrorKind::Other)),
        TransferError::Filesystem("receive staging is unavailable".into())
    );
}

fn resume_state(request: ResumeRequest) -> ResumeState {
    ResumeState {
        schema_version: RESUME_SCHEMA_VERSION,
        transfer_id: TransferId::new(),
        backend: "croc".into(),
        backend_version: Some("11.2.x".into()),
        capabilities: ResumeCapabilities {
            pause: false,
            resume: false,
        },
        request,
        manifest: None,
        file_id: 0,
        chunk_size: DEFAULT_RESUME_CHUNK_SIZE,
        file_size: 0,
        completed_chunks: Vec::new(),
        file_digest: None,
        temp_file_path: None,
    }
}

fn persisted() -> ResumeState {
    resume_state(ResumeRequest::Receive {
        output_directory: "/persisted".into(),
    })
}

#[test]
fn recovery_uses_explicit_receive_destination() {
    let manager = manager();
    let code = Some("secret-transfer-code".to_owned());
    match manager.recover(&persisted(), &code, &Some("/selected".to_owned())) {
        Ok(RecoveryPlan::Receive { request }) => {
            assert_eq!(request.output_directory, "/selected");
            assert_eq!(request.code, "secret-transfer-code");
        }
        _ => panic!("recovery was refused"),
    }
    match manager.recover(&persisted(), &code, &None) {
        Ok(RecoveryPlan::Receive { request }) => {
            assert_eq!(request.output_directory, "/persisted")
        }
        _ => panic!("recovery was refused"),
    }
}

#[test]
fn recovery_is_refused_for_each_reason() {
    let manager = manager();
    let error = |state: &ResumeState, code: Option<&str>| {
        manager
            .recover(state, &code.map(str::to_owned), &None)
            .err()
            .map(|error| error.message())
    };
    assert_eq!(
        error(&persisted(), None).as_deref(),
        Some("backend error: receive recovery requires transfer code")
    );
    assert_eq!(
        error(&persisted(), Some(" ")).as_deref(),
        Some("backend error: invalid resume request")
    );
    let mut other = persisted();
    other.backend = "other-backend".into();
    assert_eq!(
        error(&other, Some("code")).as_deref(),
        Some("backend error: resume backend is incompatible")
    );
    let mut older = persisted();
    older.backend_version = None;
    assert_eq!(
        error(&older, Some("code")).as_deref(),
        Some("backend error: resume backend is incompatible")
    );
    let mut capable = persisted();
    capable.capabilities.resume = true;
    assert_eq!(
        error(&capable, Some("code")).as_deref(),
        Some("transfer capability unavailable: Resume")
    );
    let mut invalid = persisted();
    invalid.chunk_size = 0;
    assert_eq!(
        error(&invalid, Some("code")).as_deref(),
        Some("backend error: invalid resume metadata")
    );
}

#[test]
fn successful_receive_publishes_only_after_staging_finalization() {
    let mut manager = manager();
    let id = start_receive(&mut manager);
    run(&mut manager, id, true);
    let asked = manager.backend_request(id).unwrap();
    assert_eq!(
        asked.output_directory,
        manager.receive_staging(id).unwrap().path()
    );
    assert!(matches!(
        manager.finish_attempt(id, Ok(()), false),
        FinishStep::Finalize
    ));
    assert_eq!(state(&manager, id), TransferState::Verifying);
    let end = manager.finish_receive(id, Ok(report()));
    assert_eq!(state(&manager, id), TransferState::Completed);
    assert!(end.clean_staging.is_some());
    assert_eq!(
        manager.completed_receive_destination(id).map(String::as_str),
        Some("/received")
    );
}

#[test]
fn failed_receive_does_not_publish_partial_final_file() {
    let mut manager = manager();
    let id = start_receive(&mut manager);
    run(&mut manager, id, true);
    let end = ended(manager.finish_attempt(id, Err(execution_failed()), false));
    assert!(end.clean_staging.is_some());
    assert!(end.persist.is_none());
    assert_eq!(
        manager.session(id).unwrap().failure_kind,
        Some(TransferFailureKind::ProcessFailure)
    );
    assert!(manager.completed_receive_destination(id).is_none());
}

#[test]
fn output_that_cannot_be_published_fails_the_transfer() {
    for (error, kind, message) in [
        (
            ReceiveStagingError::SymlinkOutput,
            TransferFailureKind::Security,
            "received output contained a symbolic link",
        ),
        (
            ReceiveStagingError::EmptyOutput,
            TransferFailureKind::Integrity,
            "received output was empty",
        ),
        (
            ReceiveStagingError::Conflict,
            TransferFailureKind::Filesystem,
            "received output already exists",
        ),
    ] {
        let mut manager = manager();
        let id = start_receive(&mut manager);
        run(&mut manager, id, true);
        manager.finish_attempt(id, Ok(()), false);
        manager.finish_receive(id, Err(error));
        let session = manager.session(id).unwrap();
        assert_eq!(session.state, TransferState::Failed);
        assert_eq!(session.failure_kind, Some(kind));
        assert_eq!(session.error.as_deref(), Some(message));
    }
}

#[test]
fn retryable_receive_failure_keeps_private_partial_and_resume_metadata() {
    let mut manager = recovering_manager();
    let id = start_receive(&mut manager);
    run(&mut manager, id, true);
    let end = ended(manager.finish_attempt(id, Err(timeout()), false));
    assert!(end.clean_staging.is_none());
    assert!(!end.remove_metadata);
    let resume = end.persist.unwrap();
    assert_eq!(resume.validate(), Ok(()));
    assert_eq!(
        resume.temp_file_path.as_deref(),
        manager.receive_staging(id).map(|staging| staging.relative_path())
    );
    assert_eq!(
        manager.session(id).unwrap().failure_kind,
        Some(TransferFailureKind::Network)
    );
    assert_eq!(manager.check_retry(id), Ok(Some("/received".to_owned())));
}

#[test]
fn persists_secret_free_recovery_and_restarts_only_after_explicit_action() {
    let mut manager = recovering_manager();
    let id = manager
        .start_receive(
            ReceiveRequest::new("secret-transfer-code", "/received").unwrap(),
            staging(),
        )
        .id;
    let state = manager.recovery_state(id).unwrap();
    assert!(!state.description().contains("secret-transfer-code"));
    assert!(!state.capabilities.resume);
    assert!(matches!(state.request, ResumeRequest::Receive { .. }));
    match manager.recover(&state, &Some("secret-transfer-code".into()), &None) {
        Ok(RecoveryPlan::Receive { request }) => {
            let new = manager.start_receive(request, staging()).id;
            assert_ne!(new, id);
        }
        _ => panic!("recovery was refused"),
    }
}

#[test]
fn sender_recovery_persists_manifest_for_new_attempt_id() {
    let mut manager = recovering_manager();
    let file = FileEntry::new("source.bin", 1).unwrap();
    let file_id = file.file_id;
    let manifest = TransferManifest::new(TransferId::new(), vec![file]).unwrap();
    let id = manager
        .start_send_with_manifest(
            SendRequest::new(vec!["source.bin".into()]).unwrap(),
            Some(manifest),
        )
        .unwrap()
        .id;
    let state = manager.recovery_state(id).unwrap();
    assert_eq!(state.manifest.as_ref().unwrap().transfer_id, id);
    assert_eq!(state.file_id, file_id);
    assert_eq!(state.validate(), Ok(()));
    let end = ended(manager.finish_attempt(id, Ok(()), true));
    assert!(end.remove_metadata);
    assert!(manager.recovery_state(id).is_none());
}

#[test]
fn terminal_process_failure_removes_recovery_metadata() {
    let mut manager = recovering_manager();
    let id = running_send(&mut manager);
    let end = ended(manager.finish_attempt(id, Err(execution_failed()), false));
    assert!(end.remove_metadata);
    assert!(end.persist.is_none());
}

#[test]
fn attempts_can_be_cancelled_at_every_step() {
    let mut manager = manager();
    let early = manager.start_send(send_request()).id;
    assert!(matches!(
        manager.contact_sender(early, true),
        Ok(AttemptStep::Ended(_))
    ));
    assert_eq!(state(&manager, early), TransferState::Cancelled);

    let later = manager.start_send(send_request()).id;
    manager.contact_sender(later, false).unwrap();
    assert!(matches!(
        manager.contacted(later, Ok(()), true),
        AttemptStep::CancelHandle
    ));
    assert!(matches!(
        manager.establish(later, EstablishStep::Connected, true),
        Ok(AttemptStep::CancelHandle)
    ));
    manager.handle_cancelled(later);
    assert_eq!(state(&manager, later), TransferState::Cancelled);
    assert!(matches!(
        manager.establish(later, EstablishStep::Connected, false),
        Err(TransferError::InvalidStateTransition(_))
    ));
}

#[test]
fn receives_that_cannot_start_have_failed() {
    let mut manager = manager();
    let id = start_receive(&mut manager);
    manager.contact_receiver(id, false);
    assert!(matches!(
        manager.contact_receiver(id, false),
        AttemptStep::Ended(_)
    ));
    assert_eq!(
        manager.session(id).unwrap().error.as_deref(),
        Some("receive could not start")
    );
}

#[test]
fn unknown_transfers_are_not_found() {
    let mut manager = manager();
    let id = TransferId::new();
    let missing = TransferError::Backend("transfer session not found".into());
    assert_eq!(manager.cancel(id), Err(missing.clone()));
    assert_eq!(manager.update_progress(id, 0, 0, 0), Err(missing.clone()));
    assert_eq!(manager.check_retry(id), Err(missing));
    assert!(manager.session(id).is_none());
    assert!(matches!(
        manager.apply_backend_event(
            id,
            BackendEvent::Progress {
                transferred: 0,
                total: 0,
                speed_bps: 0
            }
        ),
        Err(BackendError::Protocol { .. })
    ));
}

#[test]
fn sessions_lists_every_transfer() {
    let mut manager = manager();
    let mut started = vec![
        manager.start_send(send_request()).id.as_uuid(),
        manager.start_send(send_request()).id.as_uuid(),
        start_receive(&mut manager).as_uuid(),
    ];
    let mut listed: Vec<u128> = manager
        .sessions()
        .iter()
        .map(|session| session.id.as_uuid())
        .collect();
    started.sort();
    listed.sort();
    assert_eq!(started, listed);
}

#[test]
fn protocol_faults_outweigh_a_good_ending() {
    assert!(matches!(
        monitored_outcome(Some(timeout()), Ok(())),
        Err(BackendError::Timeout { .. })
    ));
    assert!(monitored_outcome(None, Ok(())).is_ok());
    assert_eq!(
        map_storage_error(StorageError::Serialization),
        TransferError::Backend("resume metadata is unreadable".into())
    );
}

#[test]
fn restored_requests_can_be_retried_again() {
    let mut manager = manager();
    let id = start_receive(&mut manager);
    run(&mut manager, id, true);
    ended(manager.finish_attempt(id, Err(timeout()), false));
    let retry = manager.take_retry(id).ok().unwrap();
    assert!(manager.check_retry(id).is_err());
    manager.restore_retry(id, retry);
    assert_eq!(manager.check_retry(id), Ok(Some("/received".to_owned())));
}
