//! What holds of transfers through all that happens to them.
use vstd::prelude::*;
use crate::backend::{BackendError, BackendEventModel, ReceiveModel, SendModel};
use crate::ident::TransferId;
use crate::manifest::ManifestModel;
use crate::resume::file_position;
use crate::session::{TransferErrorModel, TransferEvent, TransferState};
use crate::staging::{
    law_staging_name_is_safe, staging_name_of, ReceiveFinalizeReport, ReceiveStagingError,
    StagingModel,
};
use crate::text::blank;
use crate::transfer_model::{
    at, moved_manifest, optional_static, EndModel, FinishModel, ManagerModel, RecoveryModel,
    TransferNotification,
};

verus! {

/// The event that tells of the end of a transfer.
pub open spec fn last_event(state: TransferState) -> TransferEvent {
    match state {
        TransferState::Completed => TransferEvent::Completed,
        TransferState::Failed => TransferEvent::Failed,
        _ => TransferEvent::Cancelled,
    }
}

pub open spec fn ends_transfer(event: TransferEvent) -> bool {
    event == TransferEvent::Completed || event == TransferEvent::Failed || event
        == TransferEvent::Cancelled
}

/// How often the end of a transfer was told.
pub open spec fn endings(events: Seq<TransferNotification>, id: TransferId) -> nat
    decreases events.len(),
{
    if events.len() == 0 {
        0
    } else {
        endings(events.drop_last(), id) + if events.last().transfer_id == id && ends_transfer(
            events.last().event,
        ) {
            1nat
        } else {
            0nat
        }
    }
}

/// The end of a transfer was told as often as it has ended: once if it has, and else never.
pub open spec fn told(model: ManagerModel, id: TransferId) -> bool {
    endings(model.events, id) == (if model.session(id) matches Some(session)
        && session.state.terminal() {
        1nat
    } else {
        0nat
    })
}

/// A transfer that has ended stays as it ended, whatever happens.
pub proof fn law_ended_transfers_stay(
    model: ManagerModel,
    id: TransferId,
    next: TransferState,
    event: TransferEvent,
    report: BackendEventModel,
    result: Result<(), BackendError>,
    cancelled: bool,
    outcome: Result<ReceiveFinalizeReport, ReceiveStagingError>,
)
    requires
        model.session(id) matches Some(session) && session.state.terminal(),
    ensures
        model.advanced(id, next, event) is Err,
        model.cancelled(id) matches Ok(after) ==> after == model,
        model.reported(id, report) matches Ok(after) ==> after.session(id) is Some
            && after.session(id)->Some_0.state == model.session(id)->Some_0.state,
        model.finished(id, result, cancelled).0.session(id) == model.session(id),
        model.published(id, outcome).0.session(id) == model.session(id),
{
}

/// What happens to one transfer changes no other.
pub proof fn law_other_transfers_are_untouched(
    model: ManagerModel,
    id: TransferId,
    other: TransferId,
    report: BackendEventModel,
    result: Result<(), BackendError>,
    cancelled: bool,
    outcome: Result<ReceiveFinalizeReport, ReceiveStagingError>,
)
    requires
        id.bits() != other.bits(),
    ensures
        model.cancelled(id) matches Ok(after) ==> after.session(other) == model.session(other)
            && at(after.retries, other) == at(model.retries, other),
        model.reported(id, report) matches Ok(after) ==> after.session(other) == model.session(
            other,
        ) && after.retries == model.retries,
        model.finished(id, result, cancelled).0.session(other) == model.session(other),
        at(model.finished(id, result, cancelled).0.retries, other) == at(model.retries, other),
        model.finished(id, result, cancelled).0.active.contains(other.bits())
            == model.active.contains(other.bits()),
        model.published(id, outcome).0.session(other) == model.session(other),
        at(model.published(id, outcome).0.retries, other) == at(model.retries, other),
{
}

proof fn lemma_told_once(events: Seq<TransferNotification>, id: TransferId, event: TransferEvent)
    ensures
        endings(events.push(TransferNotification { transfer_id: id, event }), id) == endings(
            events,
            id,
        ) + if ends_transfer(event) {
            1nat
        } else {
            0nat
        },
{
    let pushed = events.push(TransferNotification { transfer_id: id, event });
    assert(pushed.drop_last() =~= events);
}

/// The end of a transfer is told exactly once, through everything that can happen to it.
pub proof fn law_end_is_told_once(
    model: ManagerModel,
    id: TransferId,
    next: TransferState,
    event: TransferEvent,
    report: BackendEventModel,
    result: Result<(), BackendError>,
    cancelled: bool,
    outcome: Result<ReceiveFinalizeReport, ReceiveStagingError>,
)
    requires
        told(model, id),
        !next.terminal() && !ends_transfer(event),
    ensures
        model.advanced(id, next, event) matches Ok(after) ==> told(after, id),
        model.cancelled(id) matches Ok(after) ==> told(after, id),
        model.reported(id, report) matches Ok(after) ==> told(after, id),
        told(model.finished(id, result, cancelled).0, id),
        told(model.published(id, outcome).0, id),
{
    let events = model.events;
    lemma_told_once(events, id, event);
    lemma_told_once(events, id, TransferEvent::Cancelled);
    lemma_told_once(events, id, TransferEvent::Failed);
    lemma_told_once(events, id, TransferEvent::Completed);
    lemma_told_once(events, id, TransferEvent::Verifying);
    let verifying = events.push(
        TransferNotification { transfer_id: id, event: TransferEvent::Verifying },
    );
    lemma_told_once(verifying, id, TransferEvent::Completed);
    lemma_told_once(events, id, TransferEvent::CodeAvailable);
    lemma_told_once(events, id, TransferEvent::MetadataReady);
    match report {
        BackendEventModel::Progress { transferred, total, speed_bps } => {
            lemma_told_once(events, id, TransferEvent::Progress { transferred, total, speed_bps });
        },
        BackendEventModel::CapabilityUnavailable { capability } => {
            if let Some(capability) = crate::transfer_model::told_capability(capability) {
                lemma_told_once(
                    events,
                    id,
                    TransferEvent::CapabilityUnavailable { capability },
                );
            }
        },
        _ => {},
    }
}

/// A new transfer, too, has told of its end as often as it has ended: never.
pub proof fn law_new_transfers_have_not_ended(
    model: ManagerModel,
    id: TransferId,
    created_at: u64,
    send: SendModel,
    manifest: Option<ManifestModel>,
    receive: ReceiveModel,
    staging: StagingModel,
)
    requires
        endings(model.events, id) == 0,
    ensures
        told(model.sending(id, created_at, send, manifest), id),
        told(model.receiving(id, created_at, receive, staging), id),
{
    lemma_told_once(model.events, id, TransferEvent::Created);
    let created = model.events.push(
        TransferNotification { transfer_id: id, event: TransferEvent::Created },
    );
    lemma_told_once(created, id, TransferEvent::CodeAvailable);
}

/// When an attempt has ended, its transfer has, the end was the last thing told, and nothing of it
/// is under way any more.
pub proof fn law_attempts_end_their_transfers(
    model: ManagerModel,
    id: TransferId,
    result: Result<(), BackendError>,
    cancelled: bool,
)
    requires
        model.session(id) matches Some(session) && !session.state.terminal(),
        model.finished(id, result, cancelled).1 is Ended,
    ensures
        ({
            let after = model.finished(id, result, cancelled).0;
            &&& after.session(id) matches Some(session) && session.state.terminal() && after.events.last()
                == (TransferNotification { transfer_id: id, event: last_event(session.state) })
            &&& !after.active.contains(id.bits())
        }),
{
}

/// What was received is published before its transfer completes.
pub proof fn law_receiving_completes_only_when_published(
    model: ManagerModel,
    id: TransferId,
    result: Result<(), BackendError>,
    cancelled: bool,
    outcome: Result<ReceiveFinalizeReport, ReceiveStagingError>,
)
    requires
        model.session(id) matches Some(session) && !session.state.terminal(),
        model.staging_of(id) is Some,
    ensures
        model.finished(id, result, cancelled).0.session(id) matches Some(session) && session.state
            != TransferState::Completed,
        model.published(id, outcome).0.session(id) matches Some(session) && (session.state
            == TransferState::Completed ==> outcome is Ok),
{
}

/// A transfer may be tried again exactly if it failed in a way that a new attempt may overcome.
pub proof fn law_retry_follows_the_failure(model: ManagerModel, id: TransferId, error: BackendError)
    requires
        model.session(id) matches Some(session) && !session.state.terminal(),
        at(model.retries, id) is Some,
        !(error is Cancelled),
    ensures
        ({
            let after = model.finished(id, Err(error), false).0;
            if error.kind().retryable() {
                after.retry_fault(id) is None
            } else {
                after.retry_fault(id) == Some(
                    TransferErrorModel::RetryNotAllowed(TransferState::Failed),
                )
            }
        }),
{
}

/// A failed attempt leaves nothing behind that nobody asks for: where a new attempt may overcome the
/// failure, what was asked for is kept as it was, with the metadata to recover it; and else what was
/// received is cleaned up and nothing is kept.
pub proof fn law_failed_attempts_are_kept_or_cleaned(
    model: ManagerModel,
    id: TransferId,
    error: BackendError,
)
    requires
        model.session(id) matches Some(session) && !session.state.terminal(),
        !(error is Cancelled),
    ensures
        ({
            let (after, step) = model.finished(id, Err(error), false);
            &&& step matches FinishModel::Ended(end) && if error.kind().retryable() {
                &&& at(after.retries, id) == at(model.retries, id)
                &&& end == (EndModel {
                    persist: model.recovery(id),
                    clean_staging: None,
                    remove_metadata: false,
                })
            } else {
                &&& at(after.retries, id) is None
                &&& end == (EndModel {
                    persist: None,
                    clean_staging: model.staging_of(id),
                    remove_metadata: model.keeps_recovery,
                })
            }
        }),
{
}

/// However publishing ends, the staging directory is cleaned up, no metadata is kept, and the place
/// that was received to is remembered only of what was published.
pub proof fn law_publishing_leaves_nothing_behind(
    model: ManagerModel,
    id: TransferId,
    outcome: Result<ReceiveFinalizeReport, ReceiveStagingError>,
)
    requires
        model.session(id) matches Some(session) && session.state == TransferState::Verifying,
        model.staging_of(id) is Some,
        at(model.destinations, id) is None,
    ensures
        ({
            let (after, end) = model.published(id, outcome);
            &&& end == (EndModel {
                persist: None,
                clean_staging: model.staging_of(id),
                remove_metadata: model.keeps_recovery,
            })
            &&& at(after.retries, id) is None
            &&& !after.active.contains(id.bits())
            &&& at(after.destinations, id) == (if outcome is Ok {
                Some(model.staging_of(id)->Some_0.destination)
            } else {
                None
            })
        }),
{
}

/// A cancelled transfer cannot be tried again.
pub proof fn law_cancelled_transfers_are_not_retried(model: ManagerModel, id: TransferId)
    requires
        model.cancelled(id) is Ok,
    ensures
        model.cancelled(id)->Ok_0.retry_fault(id) is Some,
{
}

/// What was saved of a transfer that sends is valid, and recovering it sends the same again.
pub proof fn law_sent_files_can_be_recovered(
    model: ManagerModel,
    id: TransferId,
    created_at: u64,
    request: SendModel,
    manifest: ManifestModel,
)
    requires
        model.keeps_recovery,
        !blank(model.backend_name),
        optional_static(model.info.version) matches Some(version) ==> version.len() > 0,
        request.paths.len() > 0,
        forall|i: int| 0 <= i < request.paths.len() ==> (#[trigger] request.paths[i]).len() > 0,
        manifest.fault() is None,
    ensures
        ({
            let after = model.sending(id, created_at, request, Some(manifest));
            &&& after.recovery(id) matches Some(state) && state.fault() is None && after.recovered(
                state,
                None,
                None,
            ) == Ok::<RecoveryModel, TransferErrorModel>(
                RecoveryModel::Send {
                    request: SendModel { paths: request.paths, relay: None },
                    manifest: moved_manifest(Some(manifest), id),
                },
            )
        }),
{
    let after = model.sending(id, created_at, request, Some(manifest));
    let moved = ManifestModel { transfer_id: id, ..manifest };
    let state = after.recovery(id)->Some_0;
    assert(after.session(id) is Some);
    assert(at(after.retries, id) is Some);
    assert(state.manifest == Some(moved));
    assert(moved.fault() is None);
    assert(file_position(moved, state.file_id, 0) == Some(0int));
    assert(state.matches_manifest(moved));
    assert(state.completed_chunks_valid());
}

/// What was saved of a transfer that receives is valid, and recovering it with its code receives
/// the same again.
pub proof fn law_received_files_can_be_recovered(
    model: ManagerModel,
    id: TransferId,
    created_at: u64,
    request: ReceiveModel,
    staging: StagingModel,
    staging_id: TransferId,
)
    requires
        model.keeps_recovery,
        !blank(model.backend_name),
        optional_static(model.info.version) matches Some(version) ==> version.len() > 0,
        request.output_directory.len() > 0,
        !blank(request.code),
        staging.relative_path == staging_name_of(staging_id),
    ensures
        ({
            let after = model.receiving(id, created_at, request, staging);
            &&& after.recovery(id) matches Some(state) && state.fault() is None && after.recovered(
                state,
                Some(request.code),
                None,
            ) == Ok::<RecoveryModel, TransferErrorModel>(
                RecoveryModel::Receive { request: ReceiveModel { relay: None, ..request } },
            )
        }),
{
    let after = model.receiving(id, created_at, request, staging);
    let state = after.recovery(id)->Some_0;
    law_staging_name_is_safe(staging_id);
    assert(after.session(id) is Some);
    assert(at(after.retries, id) is Some);
    assert(state.completed_chunks_valid());
}

/// A code is never saved: what is kept for recovery does not depend on it.
pub proof fn law_codes_are_not_kept(
    model: ManagerModel,
    id: TransferId,
    created_at: u64,
    first: ReceiveModel,
    second: ReceiveModel,
    staging: StagingModel,
)
    requires
        first.output_directory == second.output_directory,
    ensures
        model.receiving(id, created_at, first, staging).recovery(id) == model.receiving(
            id,
            created_at,
            second,
            staging,
        ).recovery(id),
{
}

} // verus!
