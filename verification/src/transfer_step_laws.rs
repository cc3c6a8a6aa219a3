//! What each step of a transfer does, and when it can be taken.
use vstd::prelude::*;
use crate::backend::{
    BackendCapability, BackendError, BackendEventModel, ReceiveModel, SendModel,
};
use crate::destination::DestinationError;
use crate::ident::TransferId;
use crate::manifest::ManifestModel;
use crate::resume::{ResumeModel, ResumeRequestModel};
use crate::session::{
    Role, SessionModel, TransferCapability, TransferErrorModel, TransferEvent,
    TransferFailureKind, TransferState,
};
use crate::staging::{ReceiveFinalizeReport, ReceiveStagingError, StagingModel};
use crate::text::is_space;
use crate::transfer::{manifest_refusal, TransferManager};
use crate::transfer_model::{
    at, needed_capability, optional_static, staging_failure_kind, told_capability, AttemptModel,
    EstablishStep, FinishModel, ManagerModel, RecoveryModel, RetryModel, TransferNotification,
};

verus! {

/// Of all that is known of a transfer, only its state is another.
pub open spec fn moved_on(before: SessionModel, after: SessionModel, state: TransferState) -> bool {
    &&& after.state == state
    &&& after.id == before.id
    &&& after.role == before.role
    &&& after.code == before.code
    &&& after.created_at == before.created_at
    &&& after.expires_at == before.expires_at
    &&& after.manifest == before.manifest
    &&& after.progress == before.progress
    &&& after.backend == before.backend
    &&& after.error == before.error
    &&& after.failure_kind == before.failure_kind
}

/// One more thing has happened to a transfer.
pub open spec fn tells_also(
    before: ManagerModel,
    after: ManagerModel,
    id: TransferId,
    event: TransferEvent,
) -> bool {
    &&& after.events.len() == before.events.len() + 1
    &&& after.events.drop_last() == before.events
    &&& after.events.last().transfer_id == id
    &&& after.events.last().event == event
}

/// A transfer that is sent completes once the backend is done: it is verified, then completed, both
/// are told, and nothing of it is kept.
pub proof fn law_sent_transfers_complete(model: ManagerModel, id: TransferId)
    requires
        model.session(id) matches Some(session) && session.state == TransferState::Transferring,
        !(at(model.retries, id) matches Some(RetryModel::Receive { .. })),
    ensures
        ({
            let (after, step) = model.finished(id, Ok(()), false);
            &&& after.session(id) matches Some(session) && moved_on(
                model.session(id)->Some_0,
                session,
                TransferState::Completed,
            )
            &&& after.events == model.events.push(
                TransferNotification { transfer_id: id, event: TransferEvent::Verifying },
            ).push(TransferNotification { transfer_id: id, event: TransferEvent::Completed })
            &&& !after.active.contains(id.bits())
            &&& at(after.retries, id) is None
            &&& step matches FinishModel::Ended(end) && end.persist is None
                && end.clean_staging is None && end.remove_metadata == model.keeps_recovery
        }),
{
}

/// A transfer that is received is verified once the backend is done, and completes once what was
/// received is published; then the place it went to is known, and its staging directory is to go.
pub proof fn law_received_transfers_complete(
    model: ManagerModel,
    id: TransferId,
    request: ReceiveModel,
    staging: StagingModel,
    report: ReceiveFinalizeReport,
)
    requires
        model.session(id) matches Some(session) && session.state == TransferState::Transferring,
        at(model.retries, id) == Some(RetryModel::Receive { request, staging }),
    ensures
        ({
            let (verifying, step) = model.finished(id, Ok(()), false);
            let (after, end) = verifying.published(id, Ok(report));
            &&& step == FinishModel::Finalize
            &&& verifying.session(id) matches Some(session) && moved_on(
                model.session(id)->Some_0,
                session,
                TransferState::Verifying,
            )
            &&& tells_also(model, verifying, id, TransferEvent::Verifying)
            &&& after.session(id) matches Some(session) && moved_on(
                model.session(id)->Some_0,
                session,
                TransferState::Completed,
            )
            &&& tells_also(verifying, after, id, TransferEvent::Completed)
            &&& at(after.destinations, id) == Some(staging.destination)
            &&& !after.active.contains(id.bits())
            &&& at(after.retries, id) is None
            &&& end.persist is None && end.clean_staging == Some(staging) && end.remove_metadata
                == model.keeps_recovery
        }),
{
    let (verifying, step) = model.finished(id, Ok(()), false);
    let (after, end) = verifying.published(id, Ok(report));
    assert(verifying.events.drop_last() =~= model.events);
    assert(after.events.drop_last() =~= verifying.events);
}

/// What is known of a transfer that has failed: why, in words and by kind, and all that was known
/// before.
pub open spec fn has_failed(
    before: SessionModel,
    after: SessionModel,
    message: Seq<char>,
    kind: TransferFailureKind,
) -> bool {
    &&& after.state == TransferState::Failed
    &&& after.error == Some(message)
    &&& after.failure_kind == Some(kind)
    &&& after.id == before.id && after.role == before.role && after.code == before.code
    &&& after.created_at == before.created_at && after.expires_at == before.expires_at
    &&& after.manifest == before.manifest && after.progress == before.progress
    &&& after.backend == before.backend
}

/// A transfer whose attempt fails has failed, for the reason that the backend gave, and that is told.
/// After an interruption, or if it took too long, it can be tried again as it was asked for.
pub proof fn law_failed_attempts_fail_their_transfers(
    model: ManagerModel,
    id: TransferId,
    error: BackendError,
)
    requires
        model.session(id) matches Some(session) && session.state != TransferState::Completed
            && session.state != TransferState::Failed && session.state != TransferState::Cancelled,
        !(error is Cancelled),
    ensures
        ({
            let (after, step) = model.finished(id, Err(error), false);
            &&& after.session(id) matches Some(session) && has_failed(
                model.session(id)->Some_0,
                session,
                error.safe_text(),
                error.kind(),
            )
            &&& tells_also(model, after, id, TransferEvent::Failed)
            &&& !after.active.contains(id.bits())
            &&& if error is Io || error is Task || error is Timeout {
                at(after.retries, id) == at(model.retries, id)
            } else {
                at(after.retries, id) is None
            }
            &&& step is Ended
        }),
{
    let (after, step) = model.finished(id, Err(error), false);
    assert(after.events.drop_last() =~= model.events);
}

/// A transfer that is cancelled, by its user or by the backend, is cancelled and not tried again,
/// whatever its attempt came to.
pub proof fn law_cancelled_attempts_cancel_their_transfers(
    model: ManagerModel,
    id: TransferId,
    result: Result<(), BackendError>,
)
    requires
        model.session(id) matches Some(session) && session.state != TransferState::Completed
            && session.state != TransferState::Failed && session.state != TransferState::Cancelled,
    ensures
        model.cancelled(id) matches Ok(after) && {
            &&& after.session(id) matches Some(session) && moved_on(
                model.session(id)->Some_0,
                session,
                TransferState::Cancelled,
            )
            &&& tells_also(model, after, id, TransferEvent::Cancelled)
            &&& at(after.retries, id) is None
        },
        ({
            let (after, step) = model.finished(id, result, true);
            &&& after.session(id) matches Some(session) && moved_on(
                model.session(id)->Some_0,
                session,
                TransferState::Cancelled,
            )
            &&& tells_also(model, after, id, TransferEvent::Cancelled)
            &&& !after.active.contains(id.bits())
            &&& at(after.retries, id) is None
            &&& step is Ended
        }),
        model.finished(id, Err(BackendError::Cancelled), false) == model.finished(id, result, true),
{
    let cancelled = model.cancelled(id)->Ok_0;
    assert(cancelled.events.drop_last() =~= model.events);
}

/// Only what is under way can be cancelled: what is cancelled already stays so, and what completed or
/// failed cannot be.
pub proof fn law_ended_transfers_are_not_cancelled(model: ManagerModel, id: TransferId)
    ensures
        (model.session(id) matches Some(session) && session.state == TransferState::Cancelled)
            ==> model.cancelled(id) == Ok::<ManagerModel, TransferErrorModel>(model),
        (model.session(id) matches Some(session) && (session.state == TransferState::Completed
            || session.state == TransferState::Failed)) ==> model.cancelled(id) == Err::<
            ManagerModel,
            TransferErrorModel,
        >(TransferErrorModel::CancelNotAllowed(model.session(id)->Some_0.state)),
        model.session(id) is None ==> model.cancelled(id) is Err,
{
}

/// A transfer whose files cannot be published has failed, in words and by kind of that failure.
pub proof fn law_unpublished_transfers_fail(
    model: ManagerModel,
    id: TransferId,
    error: ReceiveStagingError,
)
    requires
        model.session(id) matches Some(session) && session.state == TransferState::Verifying,
    ensures
        ({
            let (after, end) = model.published(id, Err(error));
            &&& after.session(id) matches Some(session) && session.state == TransferState::Failed
                && session.error is Some && session.failure_kind is Some && session.failure_kind
                != Some(TransferFailureKind::Network) && session.failure_kind != Some(
                TransferFailureKind::ProcessInterruption,
            )
            &&& tells_also(model, after, id, TransferEvent::Failed)
            &&& after.destinations == model.destinations
            &&& at(after.retries, id) is None
        }),
{
    let (after, end) = model.published(id, Err(error));
    assert(after.events.drop_last() =~= model.events);
}

/// Links and unsafe paths are a matter of security, missing output one of integrity, and everything
/// else one of the file system.
pub proof fn law_staging_failures_by_kind(error: ReceiveStagingError)
    ensures
        staging_failure_kind(error) == TransferFailureKind::Security <==> error
            == ReceiveStagingError::Destination(DestinationError::SymlinkNotAllowed)
            || error is InvalidOutputPath || error is SymlinkOutput,
        staging_failure_kind(error) == TransferFailureKind::Integrity <==> error is EmptyOutput,
        staging_failure_kind(error) == TransferFailureKind::Filesystem
            || staging_failure_kind(error) == TransferFailureKind::Security || staging_failure_kind(
            error,
        ) == TransferFailureKind::Integrity,
{
}

/// Progress counts exactly while bytes move and while it is sound; then it is kept as reported, and
/// that is told.
pub proof fn law_progress_counts_while_bytes_move(
    model: ManagerModel,
    id: TransferId,
    transferred: u64,
    total: u64,
    speed_bps: u64,
)
    requires
        model.session(id) is Some,
    ensures
        ({
            let session = model.session(id)->Some_0;
            let sound = session.progress.transferred_bytes <= transferred <= total && (
            session.progress.total_bytes == 0 || session.progress.total_bytes == total);
            let moving = session.state == TransferState::Transferring || session.state
                == TransferState::Resuming;
            let report = BackendEventModel::Progress { transferred, total, speed_bps };
            &&& model.progressed(id, transferred, total, speed_bps) is Ok <==> moving && sound
            &&& model.progressed(id, transferred, total, speed_bps) matches Ok(after) ==> {
                let now = after.session(id)->Some_0;
                &&& after.session(id) is Some
                &&& now.progress.transferred_bytes == transferred
                &&& now.progress.total_bytes == total
                &&& now.progress.speed_bps == speed_bps
                &&& now.state == session.state && now.code == session.code && now.error
                    == session.error
                &&& tells_also(
                    model,
                    after,
                    id,
                    TransferEvent::Progress { transferred, total, speed_bps },
                )
            }
            &&& !moving ==> model.progressed(id, transferred, total, speed_bps) == Err::<
                ManagerModel,
                TransferErrorModel,
            >(TransferErrorModel::ProgressNotAllowed(session.state))
            &&& !moving ==> model.reported(id, report) == Ok::<ManagerModel, BackendError>(model)
            &&& moving && sound ==> model.reported(id, report) == Ok::<ManagerModel, BackendError>(
                model.progressed(id, transferred, total, speed_bps)->Ok_0,
            )
            &&& moving && !sound ==> model.reported(id, report) is Err
        }),
{
    if let Ok(after) = model.progressed(id, transferred, total, speed_bps) {
        assert(after.events.drop_last() =~= model.events);
    }
}

/// A code that the backend announces is the transfer's, and that is told.
pub proof fn law_announced_codes_are_kept(model: ManagerModel, id: TransferId, code: Seq<char>)
    requires
        model.session(id) is Some,
    ensures
        model.reported(id, BackendEventModel::CodeGenerated { code }) matches Ok(after) && {
            let before = model.session(id)->Some_0;
            &&& after.session(id) matches Some(session) && session.code == Some(code)
                && session.state == before.state && session.progress == before.progress
            &&& tells_also(model, after, id, TransferEvent::CodeAvailable)
        },
{
    let after = model.reported(id, BackendEventModel::CodeGenerated { code })->Ok_0;
    assert(after.events.drop_last() =~= model.events);
}

/// Word of the metadata starts the transfer while it is negotiated, and else changes nothing.
pub proof fn law_metadata_starts_the_transfer(model: ManagerModel, id: TransferId)
    ensures
        (model.session(id) matches Some(session) && session.state == TransferState::Negotiating) ==> (
        model.reported(id, BackendEventModel::MetadataReady) matches Ok(after) && {
            &&& after.session(id) matches Some(session) && moved_on(
                model.session(id)->Some_0,
                session,
                TransferState::Transferring,
            )
            &&& tells_also(model, after, id, TransferEvent::MetadataReady)
        }),
        !(model.session(id) matches Some(session) && session.state == TransferState::Negotiating)
            ==> model.reported(id, BackendEventModel::MetadataReady) == Ok::<
            ManagerModel,
            BackendError,
        >(model),
{
    if let Ok(after) = model.reported(id, BackendEventModel::MetadataReady) {
        if after != model {
            assert(after.events.drop_last() =~= model.events);
        }
    }
}

/// What a backend cannot do is told where a user can ask for it, and changes nothing.
pub proof fn law_missing_capabilities_are_told(
    model: ManagerModel,
    id: TransferId,
    capability: BackendCapability,
)
    ensures
        model.reported(id, BackendEventModel::CapabilityUnavailable { capability }) matches Ok(after)
            && {
            &&& after.sessions == model.sessions && after.retries == model.retries && after.active
                == model.active
            &&& capability == BackendCapability::Direct || capability == BackendCapability::Relay
                ==> after == model
            &&& capability == BackendCapability::Progress ==> tells_also(
                model,
                after,
                id,
                TransferEvent::CapabilityUnavailable { capability: TransferCapability::Progress },
            )
            &&& capability == BackendCapability::Pause ==> tells_also(
                model,
                after,
                id,
                TransferEvent::CapabilityUnavailable { capability: TransferCapability::Pause },
            )
            &&& capability == BackendCapability::Resume ==> tells_also(
                model,
                after,
                id,
                TransferEvent::CapabilityUnavailable { capability: TransferCapability::Resume },
            )
        },
        forall|asked: TransferCapability|
            told_capability(#[trigger] needed_capability(asked)) == Some(asked),
{
    let after = model.reported(id, BackendEventModel::CapabilityUnavailable { capability })->Ok_0;
    if told_capability(capability) is Some {
        assert(after.events.drop_last() =~= model.events);
    }
}

/// A transfer that is to be sent begins at the beginning, knows its files and how many bytes they
/// have, and is remembered as it was asked for.
pub proof fn law_sending_begins(
    model: ManagerModel,
    id: TransferId,
    created_at: u64,
    request: SendModel,
    manifest: Option<ManifestModel>,
)
    ensures
        ({
            let after = model.sending(id, created_at, request, manifest);
            &&& after.session(id) matches Some(session) && {
                &&& session.id == id && session.role == Role::Sender && session.state
                    == TransferState::Created
                &&& session.code is None && session.error is None && session.failure_kind is None
                &&& session.created_at == created_at && session.backend == model.backend_name
                &&& session.progress.transferred_bytes == 0 && session.progress.speed_bps == 0
                &&& manifest matches Some(list) ==> (session.progress.total_bytes == list.total_size
                    && (session.manifest matches Some(own) && own.files == list.files
                    && own.total_size == list.total_size && own.transfer_id == id))
                &&& manifest is None ==> session.manifest is None && session.progress.total_bytes
                    == 0
            }
            &&& at(after.retries, id) matches Some(RetryModel::Send { request: asked, manifest: kept })
                && asked == request && (kept is Some <==> manifest is Some)
            &&& after.active.contains(id.bits())
            &&& tells_also(model, after, id, TransferEvent::Created)
        }),
{
    let after = model.sending(id, created_at, request, manifest);
    assert(after.events.drop_last() =~= model.events);
}

/// A transfer that is to be received begins at the beginning, has its code, and is remembered with
/// its staging directory.
pub proof fn law_receiving_begins(
    model: ManagerModel,
    id: TransferId,
    created_at: u64,
    request: ReceiveModel,
    staging: StagingModel,
)
    ensures
        ({
            let after = model.receiving(id, created_at, request, staging);
            &&& after.session(id) matches Some(session) && {
                &&& session.id == id && session.role == Role::Receiver && session.state
                    == TransferState::Created
                &&& session.code == Some(request.code)
                &&& session.manifest is None && session.error is None
                    && session.failure_kind is None
                &&& session.created_at == created_at && session.backend == model.backend_name
                &&& session.progress.transferred_bytes == 0 && session.progress.total_bytes == 0
            }
            &&& at(after.retries, id) == Some(RetryModel::Receive { request, staging })
            &&& after.active.contains(id.bits())
            &&& after.events == model.events.push(
                TransferNotification { transfer_id: id, event: TransferEvent::Created },
            ).push(TransferNotification { transfer_id: id, event: TransferEvent::CodeAvailable })
        }),
{
}

/// A transfer can be tried again exactly if it failed through the network or an interruption and
/// what it was asked for is still remembered.
pub proof fn law_what_can_be_tried_again(model: ManagerModel, id: TransferId)
    ensures
        model.retry_fault(id) is None <==> {
            &&& model.session(id) matches Some(session) && session.state == TransferState::Failed && (
            session.failure_kind == Some(TransferFailureKind::Network) || session.failure_kind
                == Some(TransferFailureKind::ProcessInterruption))
            &&& at(model.retries, id) is Some
        },
        model.session(id) is Some && model.retry_fault(id) is Some
            ==> model.retry_fault(id) == Some(
            TransferErrorModel::RetryNotAllowed(model.session(id)->Some_0.state),
        ),
{
}

/// The steps to a running transfer, in order, each told by its own event.
pub proof fn law_transfers_are_established_step_by_step()
    ensures
        EstablishStep::Connected.next_spec() == AttemptModel::Establish(
            EstablishStep::Authenticating,
        ),
        EstablishStep::Authenticating.next_spec() == AttemptModel::Establish(
            EstablishStep::Negotiating,
        ),
        EstablishStep::Negotiating.next_spec() == AttemptModel::Establish(
            EstablishStep::Transferring,
        ),
        EstablishStep::Transferring.next_spec() == AttemptModel::Monitor,
        EstablishStep::Connected.state_spec() == TransferState::Connected,
        EstablishStep::Authenticating.state_spec() == TransferState::Authenticating,
        EstablishStep::Negotiating.state_spec() == TransferState::Negotiating,
        EstablishStep::Transferring.state_spec() == TransferState::Transferring,
        EstablishStep::Connected.event_spec() == TransferEvent::Connected,
        EstablishStep::Authenticating.event_spec() == TransferEvent::Authenticating,
        EstablishStep::Negotiating.event_spec() == TransferEvent::Negotiating,
        EstablishStep::Transferring.event_spec() == TransferEvent::Started,
{
}

/// A step is taken exactly if the transfer is there and may take it; then its state is the next one,
/// that is told, and nothing else is changed.
pub proof fn law_steps_that_can_be_taken(
    model: ManagerModel,
    id: TransferId,
    next: TransferState,
    event: TransferEvent,
)
    ensures
        model.advanced(id, next, event) is Ok <==> (model.session(id) matches Some(session)
            && session.state.may_become(next)),
        model.advanced(id, next, event) matches Ok(after) ==> {
            &&& after.session(id) matches Some(session) && moved_on(
                model.session(id)->Some_0,
                session,
                next,
            )
            &&& tells_also(model, after, id, event)
            &&& after.retries == model.retries && after.active == model.active
                && after.destinations == model.destinations
        },
{
    if let Ok(after) = model.advanced(id, next, event) {
        assert(after.events.drop_last() =~= model.events);
    }
}

/// What is kept to recover a transfer with: what it was asked for, where it went by, and which
/// backend it was asked of; of files that are sent, which they were. Nothing is kept where no one
/// is to keep it.
pub proof fn law_kept_metadata(model: ManagerModel, id: TransferId)
    ensures
        !model.keeps_recovery ==> model.recovery(id) is None,
        model.keeps_recovery && model.session(id) is Some && at(model.retries, id) is Some
            ==> model.recovery(id) is Some,
        model.recovery(id) matches Some(state) ==> {
            let session = model.session(id)->Some_0;
            &&& state.schema_version == 2 && state.transfer_id == id && state.backend
                == session.backend && state.backend_version == optional_static(model.info.version)
            &&& state.capabilities.pause == model.info.capabilities.has(BackendCapability::Pause)
            &&& state.capabilities.resume == model.info.capabilities.has(BackendCapability::Resume)
            &&& state.chunk_size > 0 && state.completed_chunks.len() == 0
            &&& match at(model.retries, id) {
                Some(RetryModel::Send { request, manifest }) => {
                    &&& state.request == (ResumeRequestModel::Send { source_paths: request.paths })
                    &&& state.manifest == manifest
                    &&& state.temp_file_path is None
                    &&& (manifest matches Some(list) && list.files.len() > 0) ==> (state.file_id
                        == manifest->Some_0.files[0].file_id && state.file_size
                        == manifest->Some_0.files[0].size && state.file_digest
                        == manifest->Some_0.files[0].digest)
                },
                Some(RetryModel::Receive { request, staging }) => {
                    &&& state.request == (ResumeRequestModel::Receive {
                        output_directory: request.output_directory,
                    })
                    &&& state.manifest is None
                    &&& state.temp_file_path == Some(staging.relative_path)
                },
                None => false,
            }
        },
{
}

/// What is started in place of an interrupted transfer: what was sent is sent again from the same
/// paths; what was received is received again, with the code that is given, to the directory that is
/// chosen or else to the one it went to. It takes valid metadata of the same backend.
pub proof fn law_recovered_transfers(
    model: ManagerModel,
    state: ResumeModel,
    code: Option<Seq<char>>,
    directory: Option<Seq<char>>,
)
    ensures
        model.recovered(state, code, directory) is Ok <==> {
            &&& state.fault() is None
            &&& state.backend == model.backend_name
            &&& state.backend_version == optional_static(model.info.version)
            &&& state.capabilities.resume == model.info.capabilities.has(BackendCapability::Resume)
            &&& match state.request {
                ResumeRequestModel::Send { .. } => true,
                ResumeRequestModel::Receive { output_directory } => {
                    &&& code matches Some(text) && exists|i: int|
                        0 <= i < text.len() && !is_space(#[trigger] text[i])
                    &&& match directory {
                        Some(chosen) => chosen.len() > 0,
                        None => output_directory.len() > 0,
                    }
                },
            }
        },
        model.recovered(state, code, directory) matches Ok(plan) ==> match state.request {
            ResumeRequestModel::Send { source_paths } => plan == (RecoveryModel::Send {
                request: SendModel { paths: source_paths, relay: None },
                manifest: state.manifest,
            }),
            ResumeRequestModel::Receive { output_directory } => plan
                matches RecoveryModel::Receive { request } && code == Some(request.code)
                && request.relay is None && request.output_directory == (match directory {
                Some(chosen) => chosen,
                None => output_directory,
            }),
        },
{
}

/// A transfer is sent with a valid manifest or with none.
pub proof fn law_invalid_manifests_are_not_sent(manifest: Option<ManifestModel>)
    ensures
        manifest_refusal(manifest) is None <==> (manifest matches Some(list) ==> list.fault()
            is None),
{
}

/// Whoever asks to pause or resume is told that the backend cannot, if it cannot.
pub proof fn law_control_needs_the_capability(
    model: ManagerModel,
    id: TransferId,
    capability: TransferCapability,
)
    ensures
        TransferManager::control_error(model, id, capability)
            == TransferErrorModel::CapabilityUnavailable(capability)
            <==> !model.info.capabilities.has(
            match capability {
                TransferCapability::Progress => BackendCapability::Progress,
                TransferCapability::Pause => BackendCapability::Pause,
                TransferCapability::Resume => BackendCapability::Resume,
            },
        ),
{
}

} // verus!
