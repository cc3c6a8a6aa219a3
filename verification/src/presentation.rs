//! How transfers are shown: what each event changes, which events come too late, and what is told.
use std::collections::HashMap;
use vstd::prelude::*;
use crate::ident::TransferId;
use crate::progress::{progress_of, Progress};
use crate::session::{
    Role, SessionModel, TransferEvent, TransferFailureKind, TransferSession, TransferState,
};
use crate::text::{copy_optional, optional_text};
use crate::transfer_model::{at, TransferNotification};

verus! {

/// A transfer as it is shown.
#[derive(Debug, Clone, PartialEq)]
pub struct TransferPresentation {
    pub transfer_id: TransferId,
    pub role: Role,
    pub state: TransferState,
    pub progress: Progress,
    pub code_available: bool,
    pub error: Option<String>,
    pub failure_kind: Option<TransferFailureKind>,
}

#[verifier::ext_equal]
pub struct PresentationModel {
    pub transfer_id: TransferId,
    pub role: Role,
    pub state: TransferState,
    pub progress: Progress,
    pub code_available: bool,
    pub error: Option<Seq<char>>,
    pub failure_kind: Option<TransferFailureKind>,
}

impl View for TransferPresentation {
    type V = PresentationModel;

    open spec fn view(&self) -> PresentationModel {
        PresentationModel {
            transfer_id: self.transfer_id,
            role: self.role,
            state: self.state,
            progress: self.progress,
            code_available: self.code_available,
            error: optional_text(self.error),
            failure_kind: self.failure_kind,
        }
    }
}

pub open spec fn presented(session: SessionModel) -> PresentationModel {
    PresentationModel {
        transfer_id: session.id,
        role: session.role,
        state: session.state,
        progress: session.progress,
        code_available: session.code is Some,
        error: session.error,
        failure_kind: session.failure_kind,
    }
}

impl PresentationModel {
    pub open spec fn moves(self) -> bool {
        self.state == TransferState::Transferring || self.state == TransferState::Resuming
    }

    pub open spec fn can_retry(self) -> bool {
        self.failure_kind matches Some(kind) && kind.retryable()
    }
}

impl TransferPresentation {
    /// The seconds that are left, while bytes move.
    pub fn eta_seconds(&self) -> (seconds: Option<u64>)
        ensures
            seconds is None <==> !self@.moves() || self.progress.speed_bps == 0
                || self.progress.transferred_bytes >= self.progress.total_bytes,
            seconds matches Some(found) ==> self.progress.is_eta(found),
    {
        match self.state {
            TransferState::Transferring | TransferState::Resuming => self.progress.eta_seconds(),
            _ => None,
        }
    }

    pub fn retryable(&self) -> (retryable: bool)
        ensures
            retryable == self@.can_retry(),
    {
        match self.failure_kind {
            Some(kind) => kind.is_retryable(),
            None => false,
        }
    }

    pub fn from_session(session: &TransferSession) -> (presentation: Self)
        ensures
            presentation@ == presented(session@),
    {
        Self {
            transfer_id: session.id,
            role: session.role,
            state: session.state,
            progress: session.progress,
            code_available: session.code.is_some(),
            error: copy_optional(&session.error),
            failure_kind: session.failure_kind,
        }
    }

    pub fn copied(&self) -> (copy: Self)
        ensures
            copy@ == self@,
    {
        Self {
            transfer_id: self.transfer_id,
            role: self.role,
            state: self.state,
            progress: self.progress,
            code_available: self.code_available,
            error: copy_optional(&self.error),
            failure_kind: self.failure_kind,
        }
    }
}

#[derive(Debug, Clone, PartialEq)]
pub struct AppTransferUpdate {
    pub transfer_id: TransferId,
    pub event: TransferEvent,
    pub presentation: TransferPresentation,
}

#[verifier::ext_equal]
pub struct UpdateModel {
    pub transfer_id: TransferId,
    pub event: TransferEvent,
    pub presentation: PresentationModel,
}

impl View for AppTransferUpdate {
    type V = UpdateModel;

    open spec fn view(&self) -> UpdateModel {
        UpdateModel {
            transfer_id: self.transfer_id,
            event: self.event,
            presentation: self.presentation@,
        }
    }
}

pub open spec fn update_models(updates: Seq<AppTransferUpdate>) -> Seq<UpdateModel> {
    updates.map_values(|update: AppTransferUpdate| update@)
}

/// The state that an event leads to.
pub open spec fn state_after(current: TransferState, event: TransferEvent) -> TransferState {
    match event {
        TransferEvent::Created => TransferState::Created,
        TransferEvent::Connecting => TransferState::Connecting,
        TransferEvent::Connected => TransferState::Connected,
        TransferEvent::Authenticating => TransferState::Authenticating,
        TransferEvent::Negotiating => TransferState::Negotiating,
        TransferEvent::Started | TransferEvent::MetadataReady => TransferState::Transferring,
        TransferEvent::Progress { .. } => if current == TransferState::Resuming {
            current
        } else {
            TransferState::Transferring
        },
        TransferEvent::Paused => TransferState::Paused,
        TransferEvent::Resumed => TransferState::Resuming,
        TransferEvent::CapabilityUnavailable { .. } | TransferEvent::CodeAvailable => current,
        TransferEvent::Verifying => TransferState::Verifying,
        TransferEvent::Completed => TransferState::Completed,
        TransferEvent::Failed => TransferState::Failed,
        TransferEvent::Cancelled => TransferState::Cancelled,
    }
}

pub fn state_for_event(current: TransferState, event: &TransferEvent) -> (state: TransferState)
    ensures
        state == state_after(current, *event),
{
    match event {
        TransferEvent::Created => TransferState::Created,
        TransferEvent::Connecting => TransferState::Connecting,
        TransferEvent::Connected => TransferState::Connected,
        TransferEvent::Authenticating => TransferState::Authenticating,
        TransferEvent::Negotiating => TransferState::Negotiating,
        TransferEvent::Started | TransferEvent::MetadataReady => TransferState::Transferring,
        TransferEvent::Progress { .. } => match current {
            TransferState::Transferring | TransferState::Resuming => current,
            _ => TransferState::Transferring,
        },
        TransferEvent::Paused => TransferState::Paused,
        TransferEvent::Resumed => TransferState::Resuming,
        TransferEvent::CapabilityUnavailable { .. } | TransferEvent::CodeAvailable => current,
        TransferEvent::Verifying => TransferState::Verifying,
        TransferEvent::Completed => TransferState::Completed,
        TransferEvent::Failed => TransferState::Failed,
        TransferEvent::Cancelled => TransferState::Cancelled,
    }
}

/// How far along a state is.
pub open spec fn rank_of(state: TransferState) -> u8 {
    match state {
        TransferState::Created => 0,
        TransferState::Connecting => 1,
        TransferState::Connected => 2,
        TransferState::Authenticating => 3,
        TransferState::Negotiating => 4,
        TransferState::Transferring => 5,
        TransferState::Paused => 6,
        TransferState::Resuming => 7,
        TransferState::Verifying => 8,
        TransferState::Completed | TransferState::Failed | TransferState::Cancelled => 9,
    }
}

pub fn state_rank(state: TransferState) -> (rank: u8)
    ensures
        rank == rank_of(state),
{
    match state {
        TransferState::Created => 0,
        TransferState::Connecting => 1,
        TransferState::Connected => 2,
        TransferState::Authenticating => 3,
        TransferState::Negotiating => 4,
        TransferState::Transferring => 5,
        TransferState::Paused => 6,
        TransferState::Resuming => 7,
        TransferState::Verifying => 8,
        TransferState::Completed | TransferState::Failed | TransferState::Cancelled => 9,
    }
}

/// An event that tells of an end.
pub open spec fn terminal_event(event: TransferEvent) -> bool {
    event == TransferEvent::Completed || event == TransferEvent::Failed || event
        == TransferEvent::Cancelled
}

pub fn is_terminal_event(event: &TransferEvent) -> (terminal: bool)
    ensures
        terminal == terminal_event(*event),
{
    match event {
        TransferEvent::Completed | TransferEvent::Failed | TransferEvent::Cancelled => true,
        _ => false,
    }
}

/// An event that does not go back: of what has ended, only its own end once more.
pub open spec fn accepted(previous: TransferState, event: TransferEvent) -> bool {
    let next = state_after(previous, event);
    if previous.terminal() {
        terminal_event(event) && next == previous
    } else {
        rank_of(next) >= rank_of(previous)
    }
}

pub fn accepts_event(previous: TransferState, event: &TransferEvent) -> (accepts: bool)
    ensures
        accepts == accepted(previous, *event),
{
    let next = state_for_event(previous, event);
    if previous.is_terminal() {
        return is_terminal_event(event) && next == previous;
    }
    state_rank(next) >= state_rank(previous)
}

/// What an event makes of what is shown; nothing, where it tells of progress that cannot be.
pub open spec fn applied(
    shown: PresentationModel,
    session: SessionModel,
    event: TransferEvent,
    had_previous: bool,
) -> Option<PresentationModel> {
    let next = state_after(shown.state, event);
    match event {
        TransferEvent::Created
        | TransferEvent::Connecting
        | TransferEvent::Connected
        | TransferEvent::Authenticating
        | TransferEvent::Negotiating
        | TransferEvent::Started => if !had_previous || next != shown.state {
            Some(
                PresentationModel {
                    state: next,
                    progress: Progress { transferred_bytes: 0, total_bytes: 0, speed_bps: 0 },
                    code_available: false,
                    error: None,
                    failure_kind: None,
                    ..shown
                },
            )
        } else {
            Some(shown)
        },
        TransferEvent::Progress { transferred, total, speed_bps } => {
            let progress = if had_previous {
                shown.progress.updated(transferred, total, speed_bps)
            } else {
                progress_of(transferred, total, speed_bps)
            };
            match progress {
                Err(_) => None,
                Ok(progress) => Some(
                    PresentationModel {
                        state: next,
                        progress,
                        error: None,
                        failure_kind: None,
                        code_available: if had_previous {
                            shown.code_available
                        } else {
                            session.code is Some
                        },
                        ..shown
                    },
                ),
            }
        },
        TransferEvent::CodeAvailable => Some(
            PresentationModel { code_available: true, ..shown },
        ),
        TransferEvent::MetadataReady
        | TransferEvent::Paused
        | TransferEvent::Resumed
        | TransferEvent::Verifying => Some(PresentationModel { state: next, ..shown }),
        TransferEvent::CapabilityUnavailable { .. } => Some(shown),
        TransferEvent::Completed | TransferEvent::Cancelled => Some(
            PresentationModel {
                state: next,
                code_available: false,
                error: None,
                failure_kind: None,
                ..shown
            },
        ),
        TransferEvent::Failed => Some(
            PresentationModel {
                state: next,
                code_available: false,
                error: session.error,
                failure_kind: session.failure_kind,
                ..shown
            },
        ),
    }
}

/// Changes what is shown by an event; progress that cannot be changes nothing.
pub fn apply_event_to_presentation(
    presentation: &mut TransferPresentation,
    session: &TransferSession,
    event: &TransferEvent,
    had_previous: bool,
) -> (result: Option<()>)
    ensures
        match applied(old(presentation)@, session@, *event, had_previous) {
            Some(next) => result is Some && final(presentation)@ == next,
            None => result is None && final(presentation)@ == old(presentation)@,
        },
{
    let next_state = state_for_event(presentation.state, event);
    match event {
        TransferEvent::Created
        | TransferEvent::Connecting
        | TransferEvent::Connected
        | TransferEvent::Authenticating
        | TransferEvent::Negotiating
        | TransferEvent::Started => {
            if !had_previous || next_state != presentation.state {
                presentation.progress =
                Progress { transferred_bytes: 0, total_bytes: 0, speed_bps: 0 };
                presentation.code_available = false;
                presentation.error = None;
                presentation.failure_kind = None;
            }
            presentation.state = next_state;
        },
        TransferEvent::Progress { transferred, total, speed_bps } => {
            let progress = if had_previous {
                presentation.progress.update(*transferred, *total, *speed_bps)
            } else {
                Progress::new(*transferred, *total, *speed_bps)
            };
            match progress {
                Err(_) => {
                    return None;
                },
                Ok(progress) => {
                    presentation.progress = progress;
                },
            }
            presentation.state = next_state;
            presentation.error = None;
            presentation.failure_kind = None;
            if !had_previous {
                presentation.code_available = session.code.is_some();
            }
        },
        TransferEvent::CodeAvailable => {
            presentation.code_available = true;
        },
        TransferEvent::MetadataReady
        | TransferEvent::Paused
        | TransferEvent::Resumed
        | TransferEvent::Verifying => {
            presentation.state = next_state;
        },
        TransferEvent::CapabilityUnavailable { .. } => {},
        TransferEvent::Completed | TransferEvent::Cancelled => {
            presentation.state = next_state;
            presentation.code_available = false;
            presentation.error = None;
            presentation.failure_kind = None;
        },
        TransferEvent::Failed => {
            presentation.state = next_state;
            presentation.code_available = false;
            presentation.error = copy_optional(&session.error);
            presentation.failure_kind = session.failure_kind;
        },
    }
    Some(())
}

/// The event that tells of the state a session is in.
pub open spec fn event_of(session: SessionModel) -> TransferEvent {
    match session.state {
        TransferState::Created => TransferEvent::Created,
        TransferState::Connecting => TransferEvent::Connecting,
        TransferState::Connected => TransferEvent::Connected,
        TransferState::Authenticating => TransferEvent::Authenticating,
        TransferState::Negotiating => TransferEvent::Negotiating,
        TransferState::Transferring | TransferState::Resuming => TransferEvent::Progress {
            transferred: session.progress.transferred_bytes,
            total: session.progress.total_bytes,
            speed_bps: session.progress.speed_bps,
        },
        TransferState::Paused => TransferEvent::Paused,
        TransferState::Verifying => TransferEvent::Verifying,
        TransferState::Completed => TransferEvent::Completed,
        TransferState::Failed => TransferEvent::Failed,
        TransferState::Cancelled => TransferEvent::Cancelled,
    }
}

pub fn event_for_session(session: &TransferSession) -> (event: TransferEvent)
    ensures
        event == event_of(session@),
{
    match session.state {
        TransferState::Created => TransferEvent::Created,
        TransferState::Connecting => TransferEvent::Connecting,
        TransferState::Connected => TransferEvent::Connected,
        TransferState::Authenticating => TransferEvent::Authenticating,
        TransferState::Negotiating => TransferEvent::Negotiating,
        TransferState::Transferring | TransferState::Resuming => TransferEvent::Progress {
            transferred: session.progress.transferred_bytes,
            total: session.progress.total_bytes,
            speed_bps: session.progress.speed_bps,
        },
        TransferState::Paused => TransferEvent::Paused,
        TransferState::Verifying => TransferEvent::Verifying,
        TransferState::Completed => TransferEvent::Completed,
        TransferState::Failed => TransferEvent::Failed,
        TransferState::Cancelled => TransferEvent::Cancelled,
    }
}

/// The updates that are not about a transfer.
pub open spec fn without(updates: Seq<UpdateModel>, id: TransferId) -> Seq<UpdateModel>
    decreases updates.len(),
{
    if updates.len() == 0 {
        updates
    } else {
        let rest = without(updates.drop_last(), id);
        if updates.last().transfer_id == id {
            rest
        } else {
            rest.push(updates.last())
        }
    }
}

/// The updates that are about a transfer.
pub open spec fn only(updates: Seq<UpdateModel>, id: TransferId) -> Seq<UpdateModel>
    decreases updates.len(),
{
    if updates.len() == 0 {
        updates
    } else {
        let rest = only(updates.drop_last(), id);
        if updates.last().transfer_id == id {
            rest.push(updates.last())
        } else {
            rest
        }
    }
}

/// What is shown of every transfer, the progress that is held back, and what is to be told.
#[verifier::ext_equal]
pub struct BoardModel {
    pub shown: Map<u128, PresentationModel>,
    pub pending: Seq<UpdateModel>,
    pub published: Seq<UpdateModel>,
}

/// The update of a session that is shown afresh.
pub open spec fn refreshed(session: SessionModel) -> UpdateModel {
    UpdateModel {
        transfer_id: session.id,
        event: event_of(session),
        presentation: presented(session),
    }
}

impl BoardModel {
    /// The update that a notification gives. One about an unknown transfer gives none, nor does
    /// one that comes too late or tells of progress that cannot be.
    pub open spec fn built(
        self,
        session: Option<SessionModel>,
        notification: TransferNotification,
    ) -> Option<UpdateModel> {
        let id = notification.transfer_id;
        match session {
            None => None,
            Some(session) => match at(self.shown, id) {
                Some(previous) => if accepted(previous.state, notification.event) {
                    match applied(previous, session, notification.event, true) {
                        Some(presentation) => Some(
                            UpdateModel { transfer_id: id, event: notification.event, presentation },
                        ),
                        None => None,
                    }
                } else {
                    None
                },
                None => match applied(presented(session), session, notification.event, false) {
                    Some(presentation) => Some(
                        UpdateModel { transfer_id: id, event: notification.event, presentation },
                    ),
                    None => None,
                },
            },
        }
    }

    /// Progress is held back, the latest only; anything else is told at once, after the progress
    /// that was held back for its transfer.
    pub open spec fn queued(self, update: UpdateModel) -> BoardModel {
        if update.event is Progress {
            BoardModel { pending: without(self.pending, update.transfer_id).push(update), ..self }
        } else {
            BoardModel {
                pending: without(self.pending, update.transfer_id),
                published: (self.published + only(self.pending, update.transfer_id)).push(update),
                ..self
            }
        }
    }

    pub open spec fn notified(
        self,
        session: Option<SessionModel>,
        notification: TransferNotification,
    ) -> BoardModel {
        match self.built(session, notification) {
            None => self,
            Some(update) => BoardModel {
                shown: self.shown.insert(notification.transfer_id.bits(), update.presentation),
                ..self
            }.queued(update),
        }
    }

    pub open spec fn flushed(self) -> BoardModel {
        BoardModel {
            pending: Seq::empty(),
            published: self.published + self.pending,
            ..self
        }
    }

    /// Shows sessions as they are, and nothing else.
    pub open spec fn renewed(self, sessions: Seq<SessionModel>) -> BoardModel
        decreases sessions.len(),
    {
        if sessions.len() == 0 {
            BoardModel {
                shown: Map::empty(),
                pending: unshown(self.pending, self.shown),
                ..self
            }
        } else {
            let before = self.renewed(sessions.drop_last());
            let session = sessions.last();
            BoardModel {
                shown: before.shown.insert(session.id.bits(), presented(session)),
                pending: without(before.pending, session.id),
                published: before.published.push(refreshed(session)),
            }
        }
    }
}

/// The updates about transfers that are not shown.
pub open spec fn unshown(updates: Seq<UpdateModel>, shown: Map<u128, PresentationModel>) -> Seq<
    UpdateModel,
>
    decreases updates.len(),
{
    if updates.len() == 0 {
        updates
    } else {
        let rest = unshown(updates.drop_last(), shown);
        if shown.contains_key(updates.last().transfer_id.bits()) {
            rest
        } else {
            rest.push(updates.last())
        }
    }
}

pub open spec fn shown_models(shown: Map<u128, TransferPresentation>) -> Map<u128, PresentationModel> {
    shown.map_values(|presentation: TransferPresentation| presentation@)
}

pub open spec fn session_views(sessions: Seq<&TransferSession>) -> Seq<SessionModel> {
    sessions.map_values(|session: &TransferSession| session@)
}

/// Keeps what is shown of every transfer.
pub struct EventBoard {
    shown: HashMap<u128, TransferPresentation>,
    pending: Vec<AppTransferUpdate>,
    published: Vec<AppTransferUpdate>,
}

impl View for EventBoard {
    type V = BoardModel;

    closed spec fn view(&self) -> BoardModel {
        BoardModel {
            shown: shown_models(self.shown@),
            pending: update_models(self.pending@),
            published: update_models(self.published@),
        }
    }
}

pub open spec fn empty_board() -> BoardModel {
    BoardModel { shown: Map::empty(), pending: Seq::empty(), published: Seq::empty() }
}

impl EventBoard {
    pub fn new() -> (board: Self)
        ensures
            board@ == empty_board(),
    {
        let board = Self { shown: HashMap::new(), pending: Vec::new(), published: Vec::new() };
        assert(board@ =~= empty_board());
        board
    }

    pub fn presentation(&self, transfer_id: TransferId) -> (presentation: Option<
        &TransferPresentation,
    >)
        ensures
            match presentation {
                Some(found) => at(self@.shown, transfer_id) == Some(found@),
                None => at(self@.shown, transfer_id) is None,
            },
    {
        self.shown.get(&transfer_id.as_uuid())
    }

    /// Hands out what is to be told, in order.
    pub fn take_published(&mut self) -> (updates: Vec<AppTransferUpdate>)
        ensures
            update_models(updates@) == old(self)@.published,
            final(self)@ == (BoardModel { published: Seq::empty(), ..old(self)@ }),
    {
        let mut updates: Vec<AppTransferUpdate> = Vec::new();
        std::mem::swap(&mut updates, &mut self.published);
        assert(self@ =~= (BoardModel { published: Seq::empty(), ..old(self)@ }));
        updates
    }

    fn publish(&mut self, update: AppTransferUpdate)
        ensures
            final(self)@ == (BoardModel {
                published: old(self)@.published.push(update@),
                ..old(self)@
            }),
    {
        self.published.push(update);
        assert(self@.published =~= old(self)@.published.push(update@));
    }

    /// Takes the held back progress of a transfer out.
    fn release(&mut self, transfer_id: TransferId) -> (released: Vec<AppTransferUpdate>)
        ensures
            update_models(released@) == only(old(self)@.pending, transfer_id),
            final(self)@ == (BoardModel {
                pending: without(old(self)@.pending, transfer_id),
                ..old(self)@
            }),
    {
        let mut all: Vec<AppTransferUpdate> = Vec::new();
        std::mem::swap(&mut all, &mut self.pending);
        let ghost models = update_models(all@);
        let mut left: Vec<AppTransferUpdate> = Vec::new();
        let mut released: Vec<AppTransferUpdate> = Vec::new();
        reverse_updates(&mut all);
        let total: usize = all.len();
        let mut done: usize = 0;
        assert(models.take(0) =~= Seq::empty());
        assert(update_models(left@) =~= Seq::empty());
        assert(update_models(released@) =~= Seq::empty());
        while done < total
            invariant
                done <= total,
                total == models.len(),
                all@.len() == total - done,
                forall|i: int| 0 <= i < all@.len() ==> #[trigger] all@[i]@ == models[total - 1 - i],
                update_models(left@) == without(models.take(done as int), transfer_id),
                update_models(released@) == only(models.take(done as int), transfer_id),
            decreases total - done,
        {
            let ghost next = models.take(done as int + 1);
            assert(next.drop_last() =~= models.take(done as int));
            if let Some(update) = all.pop() {
                assert(update@ == next.last());
                if update.transfer_id.same(transfer_id) {
                    let ghost before = released@;
                    released.push(update);
                    assert(update_models(released@) =~= update_models(before).push(update@));
                } else {
                    let ghost before = left@;
                    left.push(update);
                    assert(update_models(left@) =~= update_models(before).push(update@));
                }
            }
            done = done + 1;
        }
        assert(models.take(total as int) =~= models);
        self.pending = left;
        released
    }

    /// Queues an update: progress waits, the latest for each transfer; anything else goes out, after
    /// the progress that waited.
    pub fn queue_update(&mut self, update: AppTransferUpdate)
        ensures
            final(self)@ == old(self)@.queued(update@),
    {
        let mut released = self.release(update.transfer_id);
        if let TransferEvent::Progress { .. } = update.event {
            let ghost before = self.pending@;
            self.pending.push(update);
            assert(update_models(self.pending@) =~= update_models(before).push(update@));
        } else {
            let ghost before = self.published@;
            let ghost out = released@;
            self.published.append(&mut released);
            assert(update_models(self.published@) =~= update_models(before) + update_models(out));
            self.publish(update);
        }
    }

    /// Tells all progress that was held back.
    pub fn flush_pending(&mut self)
        ensures
            final(self)@ == old(self)@.flushed(),
    {
        let ghost before = self.published@;
        let ghost held = self.pending@;
        let mut waiting: Vec<AppTransferUpdate> = Vec::new();
        std::mem::swap(&mut waiting, &mut self.pending);
        self.published.append(&mut waiting);
        assert(update_models(self.published@) =~= update_models(before) + update_models(held));
        assert(self@ =~= old(self)@.flushed());
    }

    fn show(&mut self, transfer_id: TransferId, presentation: TransferPresentation)
        ensures
            final(self)@ == (BoardModel {
                shown: old(self)@.shown.insert(transfer_id.bits(), presentation@),
                ..old(self)@
            }),
    {
        self.shown.insert(transfer_id.as_uuid(), presentation);
        assert(self@.shown =~= old(self)@.shown.insert(transfer_id.bits(), presentation@));
    }

    /// The update that a notification gives, if it gives one; what is shown changes with it.
    pub fn build_update(
        &mut self,
        session: Option<&TransferSession>,
        notification: TransferNotification,
    ) -> (update: Option<AppTransferUpdate>)
        ensures
            ({
                let model = match session {
                    Some(session) => Some(session@),
                    None => None,
                };
                match old(self)@.built(model, notification) {
                    None => update is None && final(self)@ == old(self)@,
                    Some(built) => update matches Some(found) && found@ == built && final(self)@
                        == (BoardModel {
                        shown: old(self)@.shown.insert(
                            notification.transfer_id.bits(),
                            built.presentation,
                        ),
                        ..old(self)@
                    }),
                }
            }),
    {
        let session = match session {
            Some(session) => session,
            None => {
                return None;
            },
        };
        let transfer_id = notification.transfer_id;
        let event = notification.event;
        let (mut presentation, had_previous) = match self.presentation(transfer_id) {
            Some(previous) => {
                if !accepts_event(previous.state, &event) {
                    return None;
                }
                (previous.copied(), true)
            },
            None => (TransferPresentation::from_session(session), false),
        };
        match apply_event_to_presentation(&mut presentation, session, &event, had_previous) {
            None => None,
            Some(()) => {
                self.show(transfer_id, presentation.copied());
                Some(AppTransferUpdate { transfer_id, event, presentation })
            },
        }
    }

    /// Takes a notification in.
    pub fn notify(&mut self, session: Option<&TransferSession>, notification: TransferNotification)
        ensures
            final(self)@ == old(self)@.notified(
                match session {
                    Some(session) => Some(session@),
                    None => None,
                },
                notification,
            ),
    {
        if let Some(update) = self.build_update(session, notification) {
            self.queue_update(update);
        }
    }

    fn drop_shown(&mut self)
        ensures
            final(self)@ == (BoardModel {
                shown: Map::empty(),
                pending: unshown(old(self)@.pending, old(self)@.shown),
                ..old(self)@
            }),
    {
        let mut all: Vec<AppTransferUpdate> = Vec::new();
        std::mem::swap(&mut all, &mut self.pending);
        let ghost models = update_models(all@);
        let ghost shown = self@.shown;
        let mut left: Vec<AppTransferUpdate> = Vec::new();
        reverse_updates(&mut all);
        let total: usize = all.len();
        let mut done: usize = 0;
        assert(models.take(0) =~= Seq::empty());
        assert(update_models(left@) =~= Seq::empty());
        while done < total
            invariant
                done <= total,
                total == models.len(),
                shown == shown_models(self.shown@),
                all@.len() == total - done,
                forall|i: int| 0 <= i < all@.len() ==> #[trigger] all@[i]@ == models[total - 1 - i],
                update_models(left@) == unshown(models.take(done as int), shown),
            decreases total - done,
        {
            let ghost next = models.take(done as int + 1);
            assert(next.drop_last() =~= models.take(done as int));
            if let Some(update) = all.pop() {
                assert(update@ == next.last());
                if !self.shown.contains_key(&update.transfer_id.as_uuid()) {
                    let ghost before = left@;
                    left.push(update);
                    assert(update_models(left@) =~= update_models(before).push(update@));
                }
            }
            done = done + 1;
        }
        assert(models.take(total as int) =~= models);
        self.pending = left;
        self.shown = HashMap::new();
        assert(self@.shown =~= Map::empty());
    }

    /// Shows all sessions as they are, after events were missed.
    pub fn refresh_sessions(&mut self, sessions: &Vec<&TransferSession>)
        ensures
            final(self)@ == old(self)@.renewed(session_views(sessions@)),
    {
        let ghost models = session_views(sessions@);
        let ghost before = self@;
        self.drop_shown();
        let mut i: usize = 0;
        assert(models.take(0) =~= Seq::empty());
        while i < sessions.len()
            invariant
                i <= sessions@.len(),
                models == session_views(sessions@),
                self@ == before.renewed(models.take(i as int)),
            decreases sessions@.len() - i,
        {
            let ghost next = models.take(i as int + 1);
            assert(next.drop_last() =~= models.take(i as int));
            let session = sessions[i];
            assert(next.last() == session@);
            let presentation = TransferPresentation::from_session(session);
            self.show(session.id, presentation.copied());
            let _ = self.release(session.id);
            self.publish(
                AppTransferUpdate {
                    transfer_id: session.id,
                    event: event_for_session(session),
                    presentation,
                },
            );
            assert(self@ =~= before.renewed(next));
            i = i + 1;
        }
        assert(models.take(i as int) =~= models);
    }
}

fn reverse_updates(updates: &mut Vec<AppTransferUpdate>)
    ensures
        final(updates)@ == old(updates)@.reverse(),
{
    let mut reversed: Vec<AppTransferUpdate> = Vec::new();
    let ghost before = updates@;
    while updates.len() > 0
        invariant
            updates@.len() + reversed@.len() == before.len(),
            updates@ == before.take(updates@.len() as int),
            reversed@ == before.skip(updates@.len() as int).reverse(),
        decreases updates@.len(),
    {
        let ghost left = updates@.len() as int;
        if let Some(update) = updates.pop() {
            reversed.push(update);
            assert(before.skip(left - 1).reverse() =~= before.skip(left).reverse().push(
                before[left - 1],
            ));
        }
    }
    assert(before.skip(0) =~= before);
    *updates = reversed;
}

/// What has ended is shown as it ended, whatever event is still taken in.
pub proof fn law_ended_presentations_stay(
    shown: PresentationModel,
    session: SessionModel,
    event: TransferEvent,
)
    requires
        shown.state.terminal(),
        accepted(shown.state, event),
    ensures
        applied(shown, session, event, true) matches Some(after) && after.state == shown.state,
{
}

/// What is shown of a transfer never goes back.
pub proof fn law_presentations_go_forward(
    shown: PresentationModel,
    session: SessionModel,
    event: TransferEvent,
    after: PresentationModel,
)
    requires
        accepted(shown.state, event),
        applied(shown, session, event, true) == Some(after),
    ensures
        rank_of(after.state) >= rank_of(shown.state),
        after.transfer_id == shown.transfer_id,
        after.role == shown.role,
{
}

/// Each transfer has at most one update that waits, and it tells of progress.
pub open spec fn one_each(pending: Seq<UpdateModel>) -> bool {
    &&& forall|i: int, j: int|
        0 <= i < j < pending.len() ==> (#[trigger] pending[i]).transfer_id != (
        #[trigger] pending[j]).transfer_id
    &&& forall|i: int| 0 <= i < pending.len() ==> (#[trigger] pending[i]).event is Progress
}

proof fn lemma_without(updates: Seq<UpdateModel>, id: TransferId)
    requires
        one_each(updates),
    ensures
        one_each(without(updates, id)),
        forall|i: int|
            0 <= i < without(updates, id).len() ==> {
                &&& (#[trigger] without(updates, id)[i]).transfer_id != id
                &&& updates.contains(without(updates, id)[i])
            },
        only(updates, id).len() <= 1,
        forall|i: int|
            0 <= i < only(updates, id).len() ==> (#[trigger] only(updates, id)[i]).transfer_id == id
                && updates.contains(only(updates, id)[i]),
    decreases updates.len(),
{
    if updates.len() > 0 {
        let rest = updates.drop_last();
        assert forall|i: int, j: int| 0 <= i < j < rest.len() implies (
        #[trigger] rest[i]).transfer_id != (#[trigger] rest[j]).transfer_id by {
            assert(updates[i].transfer_id != updates[j].transfer_id);
        }
        assert forall|i: int| 0 <= i < rest.len() implies (#[trigger] rest[i]).event is Progress by {
            assert(updates[i].event is Progress);
        }
        lemma_without(rest, id);
        let last = updates.last();
        assert(updates[updates.len() - 1] == last);
        assert forall|update: UpdateModel| rest.contains(update) implies updates.contains(update)
            && update.transfer_id != last.transfer_id by {
            let i = choose|i: int| 0 <= i < rest.len() && rest[i] == update;
            assert(updates[i] == update);
        }
        let kept = without(updates, id);
        let inner = without(rest, id);
        assert forall|i: int| 0 <= i < kept.len() implies {
            &&& (#[trigger] kept[i]).transfer_id != id
            &&& updates.contains(kept[i])
        } by {
            if i < inner.len() {
                assert(kept[i] == inner[i]);
            }
        }
        assert forall|i: int, j: int| 0 <= i < j < kept.len() implies (
        #[trigger] kept[i]).transfer_id != (#[trigger] kept[j]).transfer_id by {
            assert(kept[i] == inner[i]);
            if j < inner.len() {
                assert(kept[j] == inner[j]);
            }
        }
        assert forall|i: int| 0 <= i < kept.len() implies (#[trigger] kept[i]).event is Progress by {
            if i < inner.len() {
                assert(kept[i] == inner[i]);
            }
        }
        let chosen = only(updates, id);
        let fewer = only(rest, id);
        if last.transfer_id == id && fewer.len() > 0 {
            assert(rest.contains(fewer[0]));
        }
        assert forall|i: int| 0 <= i < chosen.len() implies (#[trigger] chosen[i]).transfer_id == id
            && updates.contains(chosen[i]) by {
            if i < fewer.len() {
                assert(chosen[i] == fewer[i]);
            }
        }
    }
}

/// However much progress there is, one update waits for each transfer: the latest.
pub proof fn law_latest_progress_waits_alone(board: BoardModel, update: UpdateModel)
    requires
        one_each(board.pending),
    ensures
        one_each(board.queued(update).pending),
        update.event is Progress ==> board.queued(update).pending.last() == update
            && board.queued(update).published == board.published,
        !(update.event is Progress) ==> board.queued(update).published.last() == update,
{
    lemma_without(board.pending, update.transfer_id);
    let kept = without(board.pending, update.transfer_id);
    if update.event is Progress {
        let queued = kept.push(update);
        assert forall|i: int, j: int| 0 <= i < j < queued.len() implies (
        #[trigger] queued[i]).transfer_id != (#[trigger] queued[j]).transfer_id by {
            assert(queued[i] == kept[i]);
            if j < kept.len() {
                assert(queued[j] == kept[j]);
            }
        }
        assert forall|i: int| 0 <= i < queued.len() implies (
        #[trigger] queued[i]).event is Progress by {
            if i < kept.len() {
                assert(queued[i] == kept[i]);
            }
        }
    }
}

proof fn lemma_unshown(updates: Seq<UpdateModel>, shown: Map<u128, PresentationModel>)
    requires
        one_each(updates),
    ensures
        one_each(unshown(updates, shown)),
        forall|i: int|
            0 <= i < unshown(updates, shown).len() ==> updates.contains(
                #[trigger] unshown(updates, shown)[i],
            ),
    decreases updates.len(),
{
    if updates.len() > 0 {
        let rest = updates.drop_last();
        lemma_unshown(rest, shown);
        let kept = unshown(rest, shown);
        assert forall|i: int| 0 <= i < kept.len() implies updates.contains(#[trigger] kept[i])
            && kept[i].transfer_id != updates.last().transfer_id by {
            let j = rest.index_of(kept[i]);
            assert(rest[j] == updates[j]);
        }
        assert(updates.contains(updates.last()));
    }
}

/// One update at most waits for each transfer, and only progress does, whatever is taken in, told or
/// shown afresh.
pub proof fn law_only_progress_waits(
    board: BoardModel,
    session: Option<SessionModel>,
    notification: TransferNotification,
    sessions: Seq<SessionModel>,
)
    requires
        one_each(board.pending),
    ensures
        one_each(board.notified(session, notification).pending),
        one_each(board.flushed().pending),
        one_each(board.renewed(sessions).pending),
    decreases sessions.len(),
{
    if let Some(update) = board.built(session, notification) {
        let shown = BoardModel {
            shown: board.shown.insert(notification.transfer_id.bits(), update.presentation),
            ..board
        };
        law_latest_progress_waits_alone(shown, update);
    }
    if sessions.len() == 0 {
        lemma_unshown(board.pending, board.shown);
    } else {
        law_only_progress_waits(board, session, notification, sessions.drop_last());
        lemma_without(board.renewed(sessions.drop_last()).pending, sessions.last().id);
    }
}

/// A notification changes nothing that is shown of another transfer.
pub proof fn law_other_presentations_stay(
    board: BoardModel,
    session: Option<SessionModel>,
    notification: TransferNotification,
    other: TransferId,
)
    requires
        other.bits() != notification.transfer_id.bits(),
    ensures
        at(board.notified(session, notification).shown, other) == at(board.shown, other),
{
}

proof fn lemma_only_of_absent(updates: Seq<UpdateModel>, id: TransferId)
    requires
        forall|i: int| 0 <= i < updates.len() ==> (#[trigger] updates[i]).transfer_id != id,
    ensures
        only(updates, id) == Seq::<UpdateModel>::empty(),
        without(updates, id) == updates,
    decreases updates.len(),
{
    if updates.len() > 0 {
        let rest = updates.drop_last();
        assert forall|i: int| 0 <= i < rest.len() implies (#[trigger] rest[i]).transfer_id != id by {
            assert(updates[i].transfer_id != id);
        }
        lemma_only_of_absent(rest, id);
        assert(updates[updates.len() - 1].transfer_id != id);
        assert(rest.push(updates.last()) =~= updates);
    } else {
        assert(updates =~= Seq::empty());
    }
}

/// The last progress of a transfer is told before what comes after it, and the progress before it
/// is not told at all.
pub proof fn law_last_progress_is_told_before_the_end(
    board: BoardModel,
    earlier: UpdateModel,
    latest: UpdateModel,
    end: UpdateModel,
)
    requires
        one_each(board.pending),
        earlier.event is Progress,
        latest.event is Progress,
        !(end.event is Progress),
        earlier.transfer_id == end.transfer_id,
        latest.transfer_id == end.transfer_id,
    ensures
        board.queued(earlier).queued(latest).queued(end).published == board.published.push(
            latest,
        ).push(end),
        board.queued(earlier).queued(latest).queued(end).pending == without(
            board.pending,
            end.transfer_id,
        ),
{
    let id = end.transfer_id;
    lemma_without(board.pending, id);
    let kept = without(board.pending, id);
    lemma_only_of_absent(kept, id);
    let first = kept.push(earlier);
    assert(first.drop_last() =~= kept);
    assert(without(first, id) == kept);
    let second = kept.push(latest);
    assert(second.drop_last() =~= kept);
    assert(without(second, id) == kept);
    assert(only(second, id) =~= seq![latest]);
    assert((board.published + seq![latest]) =~= board.published.push(latest));
}

/// After a refresh, exactly the sessions are shown, as they are.
pub proof fn law_refresh_shows_the_sessions(board: BoardModel, sessions: Seq<SessionModel>, id: u128)
    requires
        forall|i: int, j: int|
            0 <= i < j < sessions.len() ==> (#[trigger] sessions[i]).id.bits() != (
            #[trigger] sessions[j]).id.bits(),
    ensures
        board.renewed(sessions).shown.contains_key(id) <==> exists|i: int|
            0 <= i < sessions.len() && (#[trigger] sessions[i]).id.bits() == id,
        forall|i: int|
            0 <= i < sessions.len() ==> board.renewed(sessions).shown.contains_key(
                (#[trigger] sessions[i]).id.bits(),
            ) && board.renewed(sessions).shown[sessions[i].id.bits()] == presented(sessions[i]),
        board.renewed(sessions).published.len() == board.published.len() + sessions.len(),
    decreases sessions.len(),
{
    if sessions.len() > 0 {
        let rest = sessions.drop_last();
        assert forall|i: int, j: int| 0 <= i < j < rest.len() implies (#[trigger] rest[i]).id.bits()
            != (#[trigger] rest[j]).id.bits() by {
            assert(sessions[i].id.bits() != sessions[j].id.bits());
        }
        law_refresh_shows_the_sessions(board, rest, id);
        let last = sessions.len() - 1;
        assert(sessions[last] == sessions.last());
        if exists|i: int| 0 <= i < rest.len() && (#[trigger] rest[i]).id.bits() == id {
            let i = choose|i: int| 0 <= i < rest.len() && (#[trigger] rest[i]).id.bits() == id;
            assert(sessions[i].id.bits() == id);
        }
        if exists|i: int| 0 <= i < sessions.len() && (#[trigger] sessions[i]).id.bits() == id {
            let i = choose|i: int| 0 <= i < sessions.len() && (#[trigger] sessions[i]).id.bits()
                == id;
            if i < rest.len() {
                assert(rest[i].id.bits() == id);
            }
        }
        assert forall|i: int| 0 <= i < sessions.len() implies board.renewed(
            sessions,
        ).shown.contains_key((#[trigger] sessions[i]).id.bits()) && board.renewed(
            sessions,
        ).shown[sessions[i].id.bits()] == presented(sessions[i]) by {
            if i < last {
                assert(rest[i] == sessions[i]);
                assert(sessions[i].id.bits() != sessions[last].id.bits());
            }
        }
    }
}

} // verus!
