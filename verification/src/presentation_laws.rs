//! What is shown of transfers, event by event.
use vstd::prelude::*;
use crate::backend::{BackendCapabilities, BackendCapability};
use crate::commands::AppCommandError;
use crate::presentation::{
    accepted, applied, event_of, presented, state_after, BoardModel, PresentationModel,
    UpdateModel,
};
use crate::resume::ResumeModel;
use crate::screen::{
    candidate, command_error_kind, destination_error_kind, failure_message, receive_event_of,
    relay_status_of, reveal_error_kind, scan_error_kind, send_event_of, settings_error_kind,
    snapshot_of, ReceiveCommandErrorKind, RecoveryKind, RelayStatus, SendCommandErrorKind,
    SettingsCommandErrorKind, ShownEvent, TransferCommandErrorKind,
};
use crate::session::{
    Role, SessionModel, TransferCapability, TransferError, TransferEvent, TransferFailureKind,
    TransferState,
};
use crate::settings::{SettingsError, SettingsValidationError};
use crate::source_scan::SourceScanError;
use crate::transfer_model::{at, TransferNotification};

verus! {

/// Every event leads to the state it tells of; progress leaves a transfer that resumes there, and a
/// code or a missing capability leaves every transfer where it is.
pub proof fn law_events_lead_to_their_states(
    state: TransferState,
    transferred: u64,
    total: u64,
    speed_bps: u64,
    capability: TransferCapability,
)
    ensures
        state_after(state, TransferEvent::Created) == TransferState::Created,
        state_after(state, TransferEvent::Connecting) == TransferState::Connecting,
        state_after(state, TransferEvent::Connected) == TransferState::Connected,
        state_after(state, TransferEvent::Authenticating) == TransferState::Authenticating,
        state_after(state, TransferEvent::Negotiating) == TransferState::Negotiating,
        state_after(state, TransferEvent::Started) == TransferState::Transferring,
        state_after(state, TransferEvent::MetadataReady) == TransferState::Transferring,
        state_after(state, TransferEvent::Paused) == TransferState::Paused,
        state_after(state, TransferEvent::Resumed) == TransferState::Resuming,
        state_after(state, TransferEvent::Verifying) == TransferState::Verifying,
        state_after(state, TransferEvent::Completed) == TransferState::Completed,
        state_after(state, TransferEvent::Failed) == TransferState::Failed,
        state_after(state, TransferEvent::Cancelled) == TransferState::Cancelled,
        state_after(state, TransferEvent::CodeAvailable) == state,
        state_after(state, TransferEvent::CapabilityUnavailable { capability }) == state,
        state_after(state, TransferEvent::Progress { transferred, total, speed_bps }) == (if state
            == TransferState::Resuming {
            TransferState::Resuming
        } else {
            TransferState::Transferring
        }),
{
}

/// How far a state is on the way of a transfer.
pub open spec fn way_to(state: TransferState) -> nat {
    match state {
        TransferState::Created => 1,
        TransferState::Connecting => 2,
        TransferState::Connected => 3,
        TransferState::Authenticating => 4,
        TransferState::Negotiating => 5,
        TransferState::Transferring => 6,
        TransferState::Paused => 7,
        TransferState::Resuming => 8,
        TransferState::Verifying => 9,
        _ => 10,
    }
}

/// An event counts exactly if it leads on, or nowhere, on the way of a transfer that has not ended;
/// after the end only the same end counts. So every end is shown of what is under way, every step
/// is shown in its turn, and none is shown once a later one was.
pub proof fn law_events_count_in_their_turn(state: TransferState, event: TransferEvent)
    ensures
        ({
            let ended = state == TransferState::Completed || state == TransferState::Failed || state
                == TransferState::Cancelled;
            &&& !ended ==> (accepted(state, event) <==> way_to(state_after(state, event)) >= way_to(
                state,
            ))
            &&& !ended ==> accepted(state, TransferEvent::Completed) && accepted(
                state,
                TransferEvent::Failed,
            ) && accepted(state, TransferEvent::Cancelled) && accepted(
                state,
                TransferEvent::CodeAvailable,
            )
            &&& ended && accepted(state, event) ==> {
                ||| event == TransferEvent::Completed && state == TransferState::Completed
                ||| event == TransferEvent::Failed && state == TransferState::Failed
                ||| event == TransferEvent::Cancelled && state == TransferState::Cancelled
            }
            &&& accepted(TransferState::Completed, TransferEvent::Completed)
            &&& accepted(TransferState::Failed, TransferEvent::Failed)
            &&& accepted(TransferState::Cancelled, TransferEvent::Cancelled)
        }),
{
}

/// A session is shown as it is; of its code only that there is one.
pub proof fn law_sessions_are_shown_as_they_are(session: SessionModel)
    ensures
        ({
            let shown = presented(session);
            &&& shown.transfer_id == session.id && shown.role == session.role && shown.state
                == session.state
            &&& shown.progress == session.progress && shown.error == session.error
                && shown.failure_kind == session.failure_kind
            &&& shown.code_available <==> session.code is Some
        }),
{
}

/// A failure shows why, and a completed or cancelled transfer shows no failure; all three show the
/// last progress and no code.
pub proof fn law_ends_are_shown(
    shown: PresentationModel,
    session: SessionModel,
    had_previous: bool,
)
    ensures
        applied(shown, session, TransferEvent::Failed, had_previous) matches Some(after)
            && after.state == TransferState::Failed && after.error == session.error
            && after.failure_kind == session.failure_kind && !after.code_available && after.progress
            == shown.progress && after.transfer_id == shown.transfer_id && after.role == shown.role,
        applied(shown, session, TransferEvent::Completed, had_previous) matches Some(after)
            && after.state == TransferState::Completed && after.error is None
            && after.failure_kind is None && !after.code_available && after.progress
            == shown.progress && after.transfer_id == shown.transfer_id && after.role == shown.role,
        applied(shown, session, TransferEvent::Cancelled, had_previous) matches Some(after)
            && after.state == TransferState::Cancelled && after.error is None
            && after.failure_kind is None && !after.code_available && after.progress
            == shown.progress && after.transfer_id == shown.transfer_id && after.role == shown.role,
{
}

/// Progress is shown as reported, unless it cannot be; it cannot have gone back.
pub proof fn law_progress_is_shown(
    shown: PresentationModel,
    session: SessionModel,
    transferred: u64,
    total: u64,
    speed_bps: u64,
    had_previous: bool,
)
    ensures
        ({
            let event = TransferEvent::Progress { transferred, total, speed_bps };
            let sound = transferred <= total && (had_previous ==> shown.progress.transferred_bytes
                <= transferred && (shown.progress.total_bytes == 0 || shown.progress.total_bytes
                == total));
            &&& applied(shown, session, event, had_previous) is Some <==> sound
            &&& applied(shown, session, event, had_previous) matches Some(after) ==> {
                &&& after.progress.transferred_bytes == transferred
                &&& after.progress.total_bytes == total
                &&& after.progress.speed_bps == speed_bps
                &&& after.error is None && after.failure_kind is None
                &&& after.transfer_id == shown.transfer_id && after.role == shown.role
                &&& had_previous ==> after.code_available == shown.code_available
                &&& !had_previous ==> after.code_available == session.code is Some
            }
        }),
{
}

/// A code shows as available and changes nothing else; a missing capability changes nothing.
pub proof fn law_codes_are_shown_as_available(
    shown: PresentationModel,
    session: SessionModel,
    capability: TransferCapability,
    had_previous: bool,
)
    ensures
        applied(shown, session, TransferEvent::CodeAvailable, had_previous) matches Some(after)
            && after.code_available && after.state == shown.state && after.progress
            == shown.progress && after.error == shown.error && after.failure_kind
            == shown.failure_kind && after.transfer_id == shown.transfer_id && after.role
            == shown.role,
        applied(
            shown,
            session,
            TransferEvent::CapabilityUnavailable { capability },
            had_previous,
        ) == Some(shown),
{
}

/// A step that begins a transfer anew shows it from the start; one that leaves it where it is shows
/// nothing new; pausing, resuming and verifying show the new state and all that was shown.
pub proof fn law_steps_are_shown(
    shown: PresentationModel,
    session: SessionModel,
    event: TransferEvent,
)
    requires
        event == TransferEvent::Created || event == TransferEvent::Connecting || event
            == TransferEvent::Connected || event == TransferEvent::Authenticating || event
            == TransferEvent::Negotiating || event == TransferEvent::Started,
    ensures
        state_after(shown.state, event) == shown.state ==> applied(shown, session, event, true)
            == Some(shown),
        state_after(shown.state, event) != shown.state ==> (applied(shown, session, event, true)
            matches Some(after) && after.state == state_after(shown.state, event)
            && after.progress.transferred_bytes == 0 && after.progress.total_bytes == 0
            && !after.code_available && after.error is None && after.failure_kind is None),
        applied(shown, session, TransferEvent::Paused, true) matches Some(after) && after.state
            == TransferState::Paused && after.progress == shown.progress && after.code_available
            == shown.code_available,
        applied(shown, session, TransferEvent::Resumed, true) matches Some(after) && after.state
            == TransferState::Resuming && after.progress == shown.progress && after.code_available
            == shown.code_available,
        applied(shown, session, TransferEvent::Verifying, true) matches Some(after) && after.state
            == TransferState::Verifying && after.progress == shown.progress && after.code_available
            == shown.code_available,
{
}

/// What counts is shown and told, or waits if it is progress; what does not count, and what is about
/// a transfer that is not known, changes nothing.
pub proof fn law_notifications_are_shown(
    board: BoardModel,
    session: SessionModel,
    notification: TransferNotification,
    previous: PresentationModel,
)
    requires
        at(board.shown, notification.transfer_id) == Some(previous),
    ensures
        board.notified(None, notification) == board,
        !accepted(previous.state, notification.event) ==> board.notified(
            Some(session),
            notification,
        ) == board,
        accepted(previous.state, notification.event) ==> match applied(
            previous,
            session,
            notification.event,
            true,
        ) {
            None => board.notified(Some(session), notification) == board,
            Some(after) => {
                let next = board.notified(Some(session), notification);
                let update = UpdateModel {
                    transfer_id: notification.transfer_id,
                    event: notification.event,
                    presentation: after,
                };
                &&& at(next.shown, notification.transfer_id) == Some(after)
                &&& notification.event is Progress ==> next.pending.last() == update
                    && next.pending.len() > 0 && next.published == board.published
                &&& !(notification.event is Progress) ==> next.published.last() == update
                    && next.published.len() > board.published.len()
            },
        },
{
}

/// The first notification of a transfer is shown as its session is, changed by the event.
pub proof fn law_new_transfers_are_shown(
    board: BoardModel,
    session: SessionModel,
    notification: TransferNotification,
)
    requires
        at(board.shown, notification.transfer_id) is None,
        !(notification.event is Progress),
    ensures
        ({
            let next = board.notified(Some(session), notification);
            &&& at(next.shown, notification.transfer_id) matches Some(shown) && shown.transfer_id
                == session.id && shown.role == session.role && shown.state == state_after(
                session.state,
                notification.event,
            )
            &&& next.published.len() > board.published.len()
        }),
{
}

/// All progress that waits is told in the end, in order.
pub proof fn law_waiting_progress_is_told(board: BoardModel)
    ensures
        board.flushed().pending.len() == 0,
        board.flushed().published == board.published + board.pending,
        board.flushed().shown == board.shown,
{
}

/// A session that is shown afresh is told as the event that led to its state, with its progress
/// while bytes move.
pub proof fn law_sessions_are_told_by_their_state(session: SessionModel)
    ensures
        ({
            let moving = session.state == TransferState::Transferring || session.state
                == TransferState::Resuming;
            &&& moving ==> event_of(session) == (TransferEvent::Progress {
                transferred: session.progress.transferred_bytes,
                total: session.progress.total_bytes,
                speed_bps: session.progress.speed_bps,
            })
            &&& !moving ==> state_after(session.state, event_of(session)) == session.state
                && !(event_of(session) is Progress) && !(event_of(session) is CodeAvailable)
                && !(event_of(session) is CapabilityUnavailable)
        }),
{
}

/// A new attempt is offered after a failure of the network or an interruption, and at no other time.
pub proof fn law_retry_is_offered_after_interruptions(shown: PresentationModel)
    ensures
        shown.can_retry() <==> shown.failure_kind == Some(TransferFailureKind::Network)
            || shown.failure_kind == Some(TransferFailureKind::ProcessInterruption),
        shown.moves() <==> shown.state == TransferState::Transferring || shown.state
            == TransferState::Resuming,
{
}

/// A failed transfer, and no other, is shown with words about it: its label, or else that it can be
/// tried again where it can, or else what is said of all failures.
pub proof fn law_failures_are_worded(
    state: TransferState,
    label: Seq<char>,
    retryable: bool,
    fallback: Seq<char>,
)
    ensures
        state != TransferState::Failed ==> failure_message(state, Some(label), retryable, fallback)
            is None && failure_message(state, None, retryable, fallback) is None,
        failure_message(TransferState::Failed, Some(label), retryable, fallback) == Some(label),
        failure_message(TransferState::Failed, None, true, fallback) == Some(
            "The transfer stopped unexpectedly. Retry is available."@,
        ),
        failure_message(TransferState::Failed, None, false, fallback) == Some(fallback),
{
}

/// A transfer is shown with all that is known of it, and with what the backend can do; the place it
/// went to can be opened exactly of what was received to the end.
pub proof fn law_snapshots_are_complete(
    shown: PresentationModel,
    session: SessionModel,
    capabilities: BackendCapabilities,
    relay_configured: Option<bool>,
    label: Option<Seq<char>>,
    destination_known: bool,
)
    ensures
        ({
            let snapshot = snapshot_of(
                shown,
                Some(session),
                capabilities,
                relay_configured,
                label,
                destination_known,
            );
            &&& snapshot.transfer_id == shown.transfer_id && snapshot.role == shown.role
                && snapshot.state == shown.state && snapshot.progress == shown.progress
            &&& snapshot.progress_supported == capabilities.has(BackendCapability::Progress)
            &&& snapshot.pause_supported == capabilities.has(BackendCapability::Pause)
            &&& snapshot.resume_supported == capabilities.has(BackendCapability::Resume)
            &&& snapshot.retryable <==> shown.failure_kind == Some(TransferFailureKind::Network)
                || shown.failure_kind == Some(TransferFailureKind::ProcessInterruption)
            &&& snapshot.error is Some <==> shown.state == TransferState::Failed
            &&& snapshot.destination_available <==> shown.state == TransferState::Completed
                && shown.role == Role::Receiver && destination_known
            &&& session.manifest matches Some(manifest) ==> snapshot.file_count == Some(
                manifest.files.len(),
            )
            &&& session.manifest is None ==> snapshot.file_count is None
                && snapshot.display_name is None
        }),
        relay_status_of(Some(true)) == RelayStatus::Custom,
        relay_status_of(Some(false)) == RelayStatus::Standard,
        relay_status_of(None) == RelayStatus::Unknown,
{
}

/// An event of a transfer is shown on its own side only. The code is shown where it is to be handed
/// on; where a transfer stands, and its end, are shown on both sides.
pub proof fn law_events_are_shown_on_their_side(
    update: UpdateModel,
    code: Seq<char>,
    label: Option<Seq<char>>,
)
    ensures
        update.presentation.role == Role::Receiver ==> send_event_of(update, Some(code), label)
            is None,
        update.presentation.role == Role::Sender ==> receive_event_of(update, label) is None,
        update.presentation.role == Role::Sender && update.event is CodeAvailable ==> send_event_of(
            update,
            Some(code),
            label,
        ) == Some(ShownEvent::CodeAvailable { transfer_id: update.transfer_id, code }),
        update.event is CodeAvailable ==> send_event_of(update, None, label) is None
            && receive_event_of(update, label) is None,
        update.event is Created || update.event is Connecting || update.event is Connected
            || update.event is Authenticating || update.event is Negotiating
            || update.event is Started || update.event is Progress || update.event is Verifying
            || update.event is Completed || update.event is Cancelled ==> {
            let plain = Some(
                ShownEvent::Plain { transfer_id: update.transfer_id, event: update.event },
            );
            &&& update.presentation.role == Role::Sender ==> send_event_of(
                update,
                Some(code),
                label,
            ) == plain
            &&& update.presentation.role == Role::Receiver ==> receive_event_of(update, label)
                == plain
        },
        update.event is Failed ==> {
            &&& update.presentation.role == Role::Sender ==> (send_event_of(
                update,
                Some(code),
                label,
            ) matches Some(ShownEvent::Failed { transfer_id, retryable, .. }) && transfer_id
                == update.transfer_id && retryable == update.presentation.can_retry())
            &&& update.presentation.role == Role::Receiver ==> (receive_event_of(update, label)
                matches Some(ShownEvent::Failed { transfer_id, retryable, .. }) && transfer_id
                == update.transfer_id && retryable == update.presentation.can_retry())
        },
        update.event is MetadataReady || update.event is Paused || update.event is Resumed
            ==> send_event_of(update, Some(code), label) is None && receive_event_of(update, label)
            is None,
{
}

/// Why a selection could not be scanned is told by its kind; what no user can do anything about is
/// one kind together.
pub proof fn law_scan_failures_are_told_apart(error: SourceScanError, other: SourceScanError)
    ensures
        scan_error_kind(error) == SendCommandErrorKind::ScanFailed <==> error
            == SourceScanError::EmptySelection || error == SourceScanError::InvalidRoot || error
            == SourceScanError::SizeOverflow,
        scan_error_kind(error) == scan_error_kind(other) && scan_error_kind(error)
            != SendCommandErrorKind::ScanFailed ==> error == other,
        scan_error_kind(SourceScanError::Unavailable) == SendCommandErrorKind::SourceUnavailable,
        scan_error_kind(SourceScanError::Unreadable) == SendCommandErrorKind::SourceUnreadable,
        scan_error_kind(SourceScanError::SymlinkNotAllowed)
            == SendCommandErrorKind::SymlinkNotAllowed,
        scan_error_kind(SourceScanError::UnsupportedFileType)
            == SendCommandErrorKind::UnsupportedFileType,
        scan_error_kind(SourceScanError::EmptyDirectory) == SendCommandErrorKind::EmptyDirectory,
        scan_error_kind(SourceScanError::TooManyEntries) == SendCommandErrorKind::TooManyEntries,
        scan_error_kind(SourceScanError::DuplicatePath) == SendCommandErrorKind::DuplicatePath,
        scan_error_kind(SourceScanError::InvalidRelativePath)
            == SendCommandErrorKind::InvalidRelativePath,
        scan_error_kind(SourceScanError::Cancelled) == SendCommandErrorKind::ScanCancelled,
{
}

/// A transfer that can be recovered is offered as what it was.
pub proof fn law_candidates_are_what_they_were(state: ResumeModel)
    ensures
        candidate(state).transfer_id == state.transfer_id,
        candidate(state).kind == RecoveryKind::Send <==> state.request is Send,
        candidate(state).kind == RecoveryKind::Receive <==> state.request is Receive,
{
}

/// Why a command was not carried out is told by what a user can do about it: ask for something that
/// the backend can do, set a sound relay, or choose a directory that can be written to.
pub proof fn law_command_failures_are_told_apart(
    error: AppCommandError,
    capability: TransferCapability,
    fault: SettingsValidationError,
)
    ensures
        command_error_kind(
            AppCommandError::Transfer(TransferError::CapabilityUnavailable(capability)),
        ) == TransferCommandErrorKind::Unsupported,
        command_error_kind(error) == TransferCommandErrorKind::Unsupported ==> error is Transfer,
        command_error_kind(error) == TransferCommandErrorKind::Unsupported
            || command_error_kind(error) == TransferCommandErrorKind::Failed,
        reveal_error_kind(error) == TransferCommandErrorKind::DestinationUnavailable <==> error
            is DestinationUnavailable,
        !(error is DestinationUnavailable) ==> reveal_error_kind(error)
            == TransferCommandErrorKind::Failed,
        settings_error_kind(AppCommandError::Settings(SettingsError::Validation(fault)))
            == SettingsCommandErrorKind::InvalidRelay <==> fault
            == SettingsValidationError::MissingRelayUrl || fault
            == SettingsValidationError::InvalidRelayUrl,
        settings_error_kind(error) == SettingsCommandErrorKind::InvalidRelay
            || settings_error_kind(error) == SettingsCommandErrorKind::SaveFailed,
        !(error is Settings) ==> settings_error_kind(error) == SettingsCommandErrorKind::SaveFailed,
        destination_error_kind(error) == ReceiveCommandErrorKind::DestinationNotWritable <==> error
            is OutputDirectoryNotWritable,
        !(error is OutputDirectoryNotWritable) ==> destination_error_kind(error)
            == ReceiveCommandErrorKind::DestinationUnavailable,
{
}

} // verus!
