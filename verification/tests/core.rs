use drift::chunks::{ChunkScheduler, ChunkState};
use drift::ident::TransferId;
use drift::manifest::{FileEntry, ManifestError, TransferManifest};
use drift::path::sanitize_relative_path;
use drift::progress::{Progress, ProgressError};
use drift::resume::{
    ResumeCapabilities, ResumeRequest, ResumeState, ResumeStateError, DEFAULT_RESUME_CHUNK_SIZE,
    RESUME_SCHEMA_VERSION,
};
use drift::session::{
    Role, StateTransitionError, TransferCapability, TransferError, TransferSession, TransferState,
};

fn resume_state(request: ResumeRequest) -> ResumeState {
    ResumeState {
        schema_version: RESUME_SCHEMA_VERSION,
        transfer_id: TransferId::new(),
        backend: "croc".into(),
        backend_version: Some("11.2.x".into()),
        capabilities: ResumeCapabilities {
            pause: false,
            resume: false,
        },
        request,
        manifest: None,
        file_id: 0,
        chunk_size: DEFAULT_RESUME_CHUNK_SIZE,
        file_size: 0,
        completed_chunks: Vec::new(),
        file_digest: None,
        temp_file_path: None,
    }
}

fn receive_to(directory: &str) -> ResumeRequest {
    ResumeRequest::Receive {
        output_directory: directory.into(),
    }
}

#[test]
fn rejects_traversal_and_absolute_paths() {
    assert_eq!(
        sanitize_relative_path("../secret"),
        Err(ManifestError::InvalidComponent)
    );
    assert_eq!(
        sanitize_relative_path("/tmp/secret"),
        Err(ManifestError::AbsolutePath)
    );
    assert_eq!(
        sanitize_relative_path("C:\\secret.txt"),
        Err(ManifestError::AbsolutePath)
    );
    assert_eq!(
        sanitize_relative_path("..\\secret.txt"),
        Err(ManifestError::InvalidComponent)
    );
}

#[test]
fn accepts_nested_relative_path() {
    assert_eq!(
        sanitize_relative_path("folder/file.txt").unwrap(),
        "folder/file.txt"
    );
}

#[test]
fn backslashes_become_slashes_and_empty_parts_are_refused() {
    assert_eq!(
        sanitize_relative_path("folder\\deep\\file.txt").unwrap(),
        "folder/deep/file.txt"
    );
    assert_eq!(sanitize_relative_path(""), Err(ManifestError::EmptyPath));
    assert_eq!(
        sanitize_relative_path("a\0b"),
        Err(ManifestError::NulByte)
    );
    assert_eq!(
        sanitize_relative_path("a//b"),
        Err(ManifestError::InvalidComponent)
    );
    assert_eq!(
        sanitize_relative_path("a/./b"),
        Err(ManifestError::InvalidComponent)
    );
    assert_eq!(
        sanitize_relative_path("\\share"),
        Err(ManifestError::AbsolutePath)
    );
}

#[test]
fn computes_manifest_total() {
    let transfer_id = TransferId::new();
    let files = vec![
        FileEntry::new("one.bin", 2).unwrap(),
        FileEntry::new("two.bin", 3).unwrap(),
    ];
    let manifest = TransferManifest::new(transfer_id, files).unwrap();
    assert_eq!(manifest.total_size, 5);
    assert!(manifest.validate().is_ok());
}

#[test]
fn rejects_duplicate_and_file_directory_conflicts() {
    let duplicate = TransferManifest {
        transfer_id: TransferId::new(),
        files: vec![
            FileEntry::new("folder/file.txt", 1).unwrap(),
            FileEntry::new("folder/file.txt", 1).unwrap(),
        ],
        total_size: 2,
    };
    assert_eq!(duplicate.validate(), Err(ManifestError::DuplicatePath));

    let conflict = TransferManifest {
        transfer_id: TransferId::new(),
        files: vec![
            FileEntry::new("folder", 1).unwrap(),
            FileEntry::new("folder/file.txt", 1).unwrap(),
        ],
        total_size: 2,
    };
    assert_eq!(conflict.validate(), Err(ManifestError::DuplicatePath));
}

#[test]
fn rejects_duplicate_paths_after_normalization() {
    let entry = |path: &str| FileEntry {
        file_id: uuid::Uuid::new_v4().as_u128(),
        relative_path: path.to_owned(),
        size: 1,
        modified_at: None,
        digest: None,
    };
    let duplicate = TransferManifest {
        transfer_id: TransferId::new(),
        files: vec![entry("folder/file.txt"), entry(r"folder\file.txt")],
        total_size: 2,
    };

    assert_eq!(duplicate.validate(), Err(ManifestError::DuplicatePath));
}

#[test]
fn manifests_need_files_and_the_right_total() {
    assert_eq!(
        TransferManifest::new(TransferId::new(), Vec::new()).err(),
        Some(ManifestError::Empty)
    );
    let wrong = TransferManifest {
        transfer_id: TransferId::new(),
        files: vec![FileEntry::new("a", 1).unwrap()],
        total_size: 2,
    };
    assert_eq!(wrong.validate(), Err(ManifestError::SizeOverflow));
    let huge = vec![
        FileEntry::new("a", u64::MAX).unwrap(),
        FileEntry::new("b", 1).unwrap(),
    ];
    assert_eq!(
        TransferManifest::new(TransferId::new(), huge).err(),
        Some(ManifestError::SizeOverflow)
    );
}

#[test]
fn manifests_can_be_moved_to_another_transfer() {
    let first = TransferId::new();
    let second = TransferId::new();
    let manifest =
        TransferManifest::new(first, vec![FileEntry::new("a/b", 7).unwrap()]).unwrap();
    let moved = manifest.for_transfer(second);
    assert_eq!(moved.transfer_id, second);
    assert_eq!(moved.files, manifest.files);
    assert_eq!(moved.total_size, 7);
}

#[test]
fn schedules_final_partial_chunk() {
    let file_id = uuid::Uuid::new_v4().as_u128();
    let mut scheduler = ChunkScheduler::new(file_id, 10, 4).unwrap();
    assert_eq!(scheduler.next().unwrap().length, 4);
    assert_eq!(scheduler.next().unwrap().length, 4);
    assert_eq!(scheduler.next().unwrap().length, 2);
    assert!(scheduler.next().is_none());
}

#[test]
fn failed_chunks_are_handed_out_again_and_completed_ones_are_not() {
    let mut scheduler = ChunkScheduler::new(7, 10, 4).unwrap();
    while scheduler.next().is_some() {}
    assert!(scheduler.mark_completed(0));
    assert!(scheduler.mark_failed(1));
    assert!(!scheduler.mark_completed(9));
    scheduler.retry_failed();
    assert_eq!(scheduler.state(0), Some(ChunkState::Completed));
    let again = scheduler.next().unwrap();
    assert_eq!((again.index, again.offset, again.length), (1, 4, 4));
    assert_eq!(scheduler.completed_count(), 1);
    assert_eq!(scheduler.state(3), None);
    assert!(ChunkScheduler::new(7, 10, 0).is_err());
    assert_eq!(ChunkScheduler::new(7, 0, 4).unwrap().chunks().len(), 0);
}

#[test]
fn resume_state_keeps_completed_chunks_sorted_and_unique() {
    let mut state = ResumeState {
        file_id: uuid::Uuid::new_v4().as_u128(),
        chunk_size: 4,
        file_size: 10,
        ..resume_state(ResumeRequest::Send {
            source_paths: vec!["source.bin".into()],
        })
    };
    state.mark_completed(2);
    state.mark_completed(0);
    state.mark_completed(2);
    assert_eq!(state.completed_chunks, vec![0, 2]);
    assert!(state.is_completed(2));
    assert!(!state.is_completed(1));
}

#[test]
fn rejects_incompatible_resume_metadata_without_secret_fields() {
    let state = ResumeState {
        schema_version: RESUME_SCHEMA_VERSION + 1,
        ..resume_state(receive_to("/tmp/receive"))
    };

    assert!(matches!(
        state.validate(),
        Err(ResumeStateError::UnsupportedSchema { .. })
    ));
    assert!(!state.description().contains("/tmp/receive"));
}

#[test]
fn every_fault_of_resume_metadata_is_told_apart() {
    let good = || resume_state(receive_to("/tmp/receive"));
    assert_eq!(good().validate(), Ok(()));
    let fault = |state: ResumeState| state.validate().unwrap_err();
    assert_eq!(
        fault(ResumeState { backend: " ".into(), ..good() }),
        ResumeStateError::EmptyBackend
    );
    assert_eq!(
        fault(ResumeState { backend_version: Some("".into()), ..good() }),
        ResumeStateError::EmptyBackendVersion
    );
    assert_eq!(
        fault(ResumeState { request: receive_to(""), ..good() }),
        ResumeStateError::InvalidRequest
    );
    assert_eq!(
        fault(ResumeState {
            request: ResumeRequest::Send { source_paths: vec!["a".into()] },
            ..good()
        }),
        ResumeStateError::InvalidManifest(ManifestError::Empty)
    );
    assert_eq!(
        fault(ResumeState { chunk_size: 0, ..good() }),
        ResumeStateError::InvalidChunkSize
    );
    assert_eq!(
        fault(ResumeState { temp_file_path: Some("../x".into()), ..good() }),
        ResumeStateError::InvalidTemporaryPath
    );
    assert_eq!(
        fault(ResumeState { completed_chunks: vec![0], ..good() }),
        ResumeStateError::InvalidCompletedChunks
    );
    let id = TransferId::new();
    let file = FileEntry::new("a", 1).unwrap();
    assert_eq!(
        fault(ResumeState {
            transfer_id: id,
            manifest: Some(TransferManifest::new(id, vec![file]).unwrap()),
            file_id: 1,
            ..good()
        }),
        ResumeStateError::FileNotInManifest
    );
}

#[test]
fn marking_a_chunk_keeps_metadata_valid() {
    let mut state = ResumeState {
        chunk_size: 4,
        file_size: 10,
        ..resume_state(receive_to("/tmp/receive"))
    };
    for index in [2, 0, 1] {
        state.mark_completed(index);
        assert_eq!(state.validate(), Ok(()));
    }
    assert_eq!(state.completed_chunks, vec![0, 1, 2]);
}

#[test]
fn rejects_invalid_progress() {
    assert_eq!(
        Progress::new(2, 1, 0),
        Err(ProgressError::TransferredExceedsTotal)
    );
}

#[test]
fn allows_unknown_total_to_become_known() {
    let progress = Progress::new(0, 0, 0).unwrap();
    assert_eq!(
        progress.update(4, 10, 2).unwrap(),
        Progress {
            transferred_bytes: 4,
            total_bytes: 10,
            speed_bps: 2,
        }
    );
}

#[test]
fn rejects_decreasing_bytes_and_known_total_changes() {
    let progress = Progress::new(5, 10, 5).unwrap();
    assert_eq!(
        progress.update(4, 10, 4),
        Err(ProgressError::TransferredDecreased)
    );
    assert_eq!(progress.update(6, 11, 4), Err(ProgressError::TotalChanged));
}

#[test]
fn time_left_is_rounded_up() {
    assert_eq!(Progress::new(25, 100, 25).unwrap().eta_seconds(), Some(3));
    assert_eq!(Progress::new(25, 100, 26).unwrap().eta_seconds(), Some(3));
    assert_eq!(Progress::new(25, 100, 24).unwrap().eta_seconds(), Some(4));
    assert_eq!(Progress::new(25, 100, 0).unwrap().eta_seconds(), None);
    assert_eq!(Progress::new(100, 100, 5).unwrap().eta_seconds(), None);
    assert_eq!(
        Progress::new(0, u64::MAX, 1).unwrap().eta_seconds(),
        Some(u64::MAX)
    );
}

#[test]
fn follows_transfer_lifecycle() {
    let mut session = TransferSession::new(Role::Sender, "croc");
    for state in [
        TransferState::Connecting,
        TransferState::Authenticating,
        TransferState::Negotiating,
        TransferState::Transferring,
        TransferState::Verifying,
        TransferState::Completed,
    ] {
        session.transition(state).unwrap();
    }
    assert_eq!(session.state, TransferState::Completed);
    assert!(session.transition(TransferState::Failed).is_err());
}

#[test]
fn debug_redacts_transfer_code() {
    let mut session = TransferSession::new(Role::Sender, "croc");
    session.set_code("secret-code");
    let debug = session.description();
    assert!(!debug.contains("secret-code"));
    assert!(debug.contains("REDACTED"));
}

#[test]
fn allows_backend_without_metadata_signal_to_start_transfer() {
    let mut session = TransferSession::new(Role::Sender, "croc");
    session.transition(TransferState::Connecting).unwrap();
    session.transition(TransferState::Authenticating).unwrap();
    session.transition(TransferState::Transferring).unwrap();
}

#[test]
fn keeps_state_transition_error_in_domain_layer() {
    let error = StateTransitionError {
        from: TransferState::Completed,
        to: TransferState::Failed,
    };
    assert_eq!(
        TransferError::from(error).message(),
        "invalid state transition"
    );
    assert_eq!(
        error.message(),
        "invalid transfer state transition: Completed -> Failed"
    );
}

#[test]
fn transfer_errors_say_what_happened() {
    assert_eq!(
        TransferError::Backend("gone".into()).message(),
        "backend error: gone"
    );
    assert_eq!(
        TransferError::RetryNotAllowed(TransferState::Paused).message(),
        "transfer cannot be retried in state Paused"
    );
    assert_eq!(
        TransferError::CapabilityUnavailable(TransferCapability::Resume).message(),
        "transfer capability unavailable: Resume"
    );
    assert_eq!(
        TransferError::from(ProgressError::TotalChanged).message(),
        "invalid transfer progress"
    );
}

#[test]
fn ended_states_lead_nowhere() {
    let all = [
        TransferState::Created,
        TransferState::Connecting,
        TransferState::Connected,
        TransferState::Authenticating,
        TransferState::Negotiating,
        TransferState::Transferring,
        TransferState::Paused,
        TransferState::Resuming,
        TransferState::Verifying,
        TransferState::Completed,
        TransferState::Failed,
        TransferState::Cancelled,
    ];
    for state in all {
        for next in all {
            if state.is_terminal() {
                assert!(!state.can_transition_to(next));
            } else if next == TransferState::Failed || next == TransferState::Cancelled {
                assert!(state.can_transition_to(next));
            }
        }
        assert_eq!(
            state.can_transition_to(TransferState::Completed),
            state == TransferState::Verifying
        );
    }
}

#[test]
fn identifiers_are_written_as_uuids_and_ordered_by_number() {
    let id = TransferId::from_bits(0x0123_4567_89ab_cdef_0011_2233_4455_6677);
    assert_eq!(id.to_text(), "01234567-89ab-cdef-0011-223344556677");
    assert_eq!(
        id.description(),
        "TransferId(01234567-89ab-cdef-0011-223344556677)"
    );
    let fresh = TransferId::new();
    assert_eq!(
        fresh.to_text(),
        uuid::Uuid::from_u128(fresh.as_uuid()).to_string()
    );
    assert_eq!(
        uuid::Uuid::from_u128(fresh.as_uuid()).get_version_num(),
        4
    );
    assert_ne!(fresh, TransferId::new());
    for (low, high) in [(0u128, 1u128), (9, 10), (0xffff, 0x1_0000), (1 << 64, u128::MAX)] {
        assert!(TransferId::from_bits(low).to_text() < TransferId::from_bits(high).to_text());
    }
}

#[test]
fn sessions_are_described_in_full_but_for_the_code() {
    let mut session =
        TransferSession::created(TransferId::from_bits(1), 5, Role::Receiver, "cr\"oc");
    session.set_code("secret-code");
    let id = TransferId::from_bits(2);
    let mut file = FileEntry::with_id(3, "a/b", 4).unwrap();
    file.modified_at = Some(6);
    session.set_manifest(TransferManifest::new(id, vec![file]).unwrap());
    assert_eq!(
        session.description(),
        "TransferSession { id: TransferId(00000000-0000-0000-0000-000000000001), role: Receiver, \
         state: Created, code: Some(\"[REDACTED]\"), created_at: 5, expires_at: None, manifest: \
         Some(TransferManifest { transfer_id: TransferId(00000000-0000-0000-0000-000000000002), \
         files: [FileEntry { file_id: 00000000-0000-0000-0000-000000000003, relative_path: \
         \"a/b\", size: 4, modified_at: Some(6), digest: None }], total_size: 4 }), progress: \
         Progress { transferred_bytes: 0, total_bytes: 4, speed_bps: 0 }, backend: \"cr\\\"oc\", \
         error: None, failure_kind: None }"
    );
}

#[test]
fn faults_of_metadata_are_put_in_words() {
    assert_eq!(
        ResumeStateError::UnsupportedSchema {
            found: 1,
            expected: RESUME_SCHEMA_VERSION
        }
        .message(),
        "unsupported resume schema version 1; expected 2"
    );
    assert_eq!(
        ResumeStateError::InvalidManifest(ManifestError::Empty).message(),
        "resume manifest is invalid"
    );
}
