//! The life of one transfer.
use vstd::prelude::*;
use crate::ident::{marked_random, TransferId};
use crate::manifest::{ManifestModel, TransferManifest};
use crate::progress::{Progress, ProgressError};
use crate::resume::optional_manifest;
use crate::text::optional_text;

verus! {

#[derive(Debug, Clone, Copy, PartialEq, Eq, Structural)]
pub enum Role {
    Sender,
    Receiver,
}

#[derive(Debug, Clone, Copy, PartialEq, Eq, Structural)]
pub enum TransferState {
    Created,
    Connecting,
    Connected,
    Authenticating,
    Negotiating,
    Transferring,
    Paused,
    Resuming,
    Verifying,
    Completed,
    Failed,
    Cancelled,
}

impl TransferState {
    /// A state that a transfer never leaves.
    pub open spec fn terminal(self) -> bool {
        self == TransferState::Completed || self == TransferState::Failed || self
            == TransferState::Cancelled
    }

    /// The steps of a transfer that neither fails nor is cancelled.
    pub open spec fn step(self, next: Self) -> bool {
        match self {
            TransferState::Created => next == TransferState::Connecting,
            TransferState::Connecting => next == TransferState::Connected || next
                == TransferState::Authenticating,
            TransferState::Connected => next == TransferState::Authenticating,
            TransferState::Authenticating => next == TransferState::Negotiating || next
                == TransferState::Transferring,
            TransferState::Negotiating => next == TransferState::Transferring,
            TransferState::Transferring => next == TransferState::Paused || next
                == TransferState::Verifying,
            TransferState::Paused => next == TransferState::Resuming,
            TransferState::Resuming => next == TransferState::Transferring,
            TransferState::Verifying => next == TransferState::Completed,
            _ => false,
        }
    }

    /// Every state that is not terminal may fail or be cancelled; else the steps decide.
    pub open spec fn may_become(self, next: Self) -> bool {
        !self.terminal() && (next == TransferState::Failed || next == TransferState::Cancelled
            || self.step(next))
    }

    pub fn can_transition_to(self, next: Self) -> (can: bool)
        ensures
            can == self.may_become(next),
    {
        if self.is_terminal() {
            return false;
        }
        match next {
            Self::Failed | Self::Cancelled => true,
            Self::Connecting => self == Self::Created,
            Self::Connected => self == Self::Connecting,
            Self::Authenticating => self == Self::Connected || self == Self::Connecting,
            Self::Negotiating => self == Self::Authenticating,
            Self::Transferring => self == Self::Authenticating || self == Self::Negotiating || self
                == Self::Resuming,
            Self::Paused => self == Self::Transferring,
            Self::Verifying => self == Self::Transferring,
            Self::Resuming => self == Self::Paused,
            Self::Completed => self == Self::Verifying,
            Self::Created => false,
        }
    }

    pub fn is_terminal(self) -> (terminal: bool)
        ensures
            terminal == self.terminal(),
    {
        match self {
            Self::Completed | Self::Failed | Self::Cancelled => true,
            _ => false,
        }
    }

    pub open spec fn label(self) -> Seq<char> {
        match self {
            TransferState::Created => "Created"@,
            TransferState::Connecting => "Connecting"@,
            TransferState::Connected => "Connected"@,
            TransferState::Authenticating => "Authenticating"@,
            TransferState::Negotiating => "Negotiating"@,
            TransferState::Transferring => "Transferring"@,
            TransferState::Paused => "Paused"@,
            TransferState::Resuming => "Resuming"@,
            TransferState::Verifying => "Verifying"@,
            TransferState::Completed => "Completed"@,
            TransferState::Failed => "Failed"@,
            TransferState::Cancelled => "Cancelled"@,
        }
    }

    pub fn name(self) -> (name: &'static str)
        ensures
            name@ == self.label(),
    {
        match self {
            Self::Created => "Created",
            Self::Connecting => "Connecting",
            Self::Connected => "Connected",
            Self::Authenticating => "Authenticating",
            Self::Negotiating => "Negotiating",
            Self::Transferring => "Transferring",
            Self::Paused => "Paused",
            Self::Resuming => "Resuming",
            Self::Verifying => "Verifying",
            Self::Completed => "Completed",
            Self::Failed => "Failed",
            Self::Cancelled => "Cancelled",
        }
    }
}

#[derive(Debug, Clone, Copy, PartialEq, Eq, Structural)]
pub enum TransferFailureKind {
    Network,
    ProcessInterruption,
    ProcessFailure,
    InvalidRequest,
    Filesystem,
    Security,
    Integrity,
    Unknown,
}

impl TransferFailureKind {
    /// Failures that a new attempt may overcome.
    pub open spec fn retryable(self) -> bool {
        self == TransferFailureKind::Network || self == TransferFailureKind::ProcessInterruption
    }

    pub fn is_retryable(self) -> (retryable: bool)
        ensures
            retryable == self.retryable(),
    {
        match self {
            Self::Network | Self::ProcessInterruption => true,
            _ => false,
        }
    }
}

#[derive(Debug, Clone, Copy, PartialEq, Eq, Structural)]
pub struct StateTransitionError {
    pub from: TransferState,
    pub to: TransferState,
}

impl StateTransitionError {
    pub fn message(&self) -> (text: String)
        ensures
            text@ == "invalid transfer state transition: "@ + self.from.label() + " -> "@
                + self.to.label(),
    {
        let mut text = "invalid transfer state transition: ".to_owned();
        text.append(self.from.name());
        text.append(" -> ");
        text.append(self.to.name());
        text
    }
}

#[derive(Debug, Clone, Copy, PartialEq, Eq, Structural)]
pub enum TransferCapability {
    Progress,
    Pause,
    Resume,
}

#[derive(Debug, Clone, PartialEq, Eq)]
pub enum TransferError {
    InvalidStateTransition(StateTransitionError),
    InvalidProgress(ProgressError),
    ProgressNotAllowed(TransferState),
    Backend(String),
    Filesystem(String),
    Cancelled,
    CancelNotAllowed(TransferState),
    RetryNotAllowed(TransferState),
    CapabilityUnavailable(TransferCapability),
}

#[verifier::ext_equal]
pub enum TransferErrorModel {
    InvalidStateTransition(StateTransitionError),
    InvalidProgress(ProgressError),
    ProgressNotAllowed(TransferState),
    Backend(Seq<char>),
    Filesystem(Seq<char>),
    Cancelled,
    CancelNotAllowed(TransferState),
    RetryNotAllowed(TransferState),
    CapabilityUnavailable(TransferCapability),
}

impl View for TransferError {
    type V = TransferErrorModel;

    open spec fn view(&self) -> TransferErrorModel {
        match *self {
            TransferError::InvalidStateTransition(error) => {
                TransferErrorModel::InvalidStateTransition(error)
            },
            TransferError::InvalidProgress(error) => TransferErrorModel::InvalidProgress(error),
            TransferError::ProgressNotAllowed(state) => {
                TransferErrorModel::ProgressNotAllowed(state)
            },
            TransferError::Backend(text) => TransferErrorModel::Backend(text@),
            TransferError::Filesystem(text) => TransferErrorModel::Filesystem(text@),
            TransferError::Cancelled => TransferErrorModel::Cancelled,
            TransferError::CancelNotAllowed(state) => TransferErrorModel::CancelNotAllowed(state),
            TransferError::RetryNotAllowed(state) => TransferErrorModel::RetryNotAllowed(state),
            TransferError::CapabilityUnavailable(capability) => {
                TransferErrorModel::CapabilityUnavailable(capability)
            },
        }
    }
}

impl TransferCapability {
    pub open spec fn label(self) -> Seq<char> {
        match self {
            TransferCapability::Progress => "Progress"@,
            TransferCapability::Pause => "Pause"@,
            TransferCapability::Resume => "Resume"@,
        }
    }

    pub fn name(self) -> (name: &'static str)
        ensures
            name@ == self.label(),
    {
        match self {
            Self::Progress => "Progress",
            Self::Pause => "Pause",
            Self::Resume => "Resume",
        }
    }
}

impl TransferErrorModel {
    pub open spec fn text(self) -> Seq<char> {
        match self {
            TransferErrorModel::InvalidStateTransition(_) => "invalid state transition"@,
            TransferErrorModel::InvalidProgress(_) => "invalid transfer progress"@,
            TransferErrorModel::ProgressNotAllowed(state) =>
                "progress update is not allowed in transfer state "@ + state.label(),
            TransferErrorModel::Backend(text) => "backend error: "@ + text,
            TransferErrorModel::Filesystem(text) => "filesystem error: "@ + text,
            TransferErrorModel::Cancelled => "transfer cancelled"@,
            TransferErrorModel::CancelNotAllowed(state) =>
                "transfer cannot be cancelled in state "@ + state.label(),
            TransferErrorModel::RetryNotAllowed(state) => "transfer cannot be retried in state "@
                + state.label(),
            TransferErrorModel::CapabilityUnavailable(capability) =>
                "transfer capability unavailable: "@ + capability.label(),
        }
    }
}

fn joined(first: &str, second: &str) -> (text: String)
    ensures
        text@ == first@ + second@,
{
    let mut text = first.to_owned();
    text.append(second);
    text
}

impl TransferError {
    pub fn message(&self) -> (text: String)
        ensures
            text@ == self@.text(),
    {
        match self {
            Self::InvalidStateTransition(_) => "invalid state transition".to_owned(),
            Self::InvalidProgress(_) => "invalid transfer progress".to_owned(),
            Self::ProgressNotAllowed(state) => joined(
                "progress update is not allowed in transfer state ",
                state.name(),
            ),
            Self::Backend(text) => joined("backend error: ", text.as_str()),
            Self::Filesystem(text) => joined("filesystem error: ", text.as_str()),
            Self::Cancelled => "transfer cancelled".to_owned(),
            Self::CancelNotAllowed(state) => joined(
                "transfer cannot be cancelled in state ",
                state.name(),
            ),
            Self::RetryNotAllowed(state) => joined(
                "transfer cannot be retried in state ",
                state.name(),
            ),
            Self::CapabilityUnavailable(capability) => joined(
                "transfer capability unavailable: ",
                capability.name(),
            ),
        }
    }
}

impl From<StateTransitionError> for TransferError {
    fn from(error: StateTransitionError) -> (wrapped: Self) {
        Self::InvalidStateTransition(error)
    }
}

impl vstd::std_specs::convert::FromSpecImpl<StateTransitionError> for TransferError {
    open spec fn obeys_from_spec() -> bool {
        true
    }

    open spec fn from_spec(error: StateTransitionError) -> Self {
        TransferError::InvalidStateTransition(error)
    }
}

impl From<ProgressError> for TransferError {
    fn from(error: ProgressError) -> (wrapped: Self) {
        Self::InvalidProgress(error)
    }
}

impl vstd::std_specs::convert::FromSpecImpl<ProgressError> for TransferError {
    open spec fn obeys_from_spec() -> bool {
        true
    }

    open spec fn from_spec(error: ProgressError) -> Self {
        TransferError::InvalidProgress(error)
    }
}

#[derive(Debug, Clone, Copy, PartialEq, Eq, Structural)]
pub enum TransferEvent {
    Created,
    Connecting,
    Connected,
    Authenticating,
    Negotiating,
    Started,
    CodeAvailable,
    MetadataReady,
    Progress { transferred: u64, total: u64, speed_bps: u64 },
    Paused,
    Resumed,
    CapabilityUnavailable { capability: TransferCapability },
    Verifying,
    Completed,
    Failed,
    Cancelled,
}

#[derive(Clone, PartialEq, Eq)]
pub struct TransferSession {
    pub id: TransferId,
    pub role: Role,
    pub state: TransferState,
    pub code: Option<String>,
    pub created_at: u64,
    pub expires_at: Option<u64>,
    pub manifest: Option<TransferManifest>,
    pub progress: Progress,
    pub backend: String,
    pub error: Option<String>,
    pub failure_kind: Option<TransferFailureKind>,
}

#[verifier::ext_equal]
pub struct SessionModel {
    pub id: TransferId,
    pub role: Role,
    pub state: TransferState,
    pub code: Option<Seq<char>>,
    pub created_at: u64,
    pub expires_at: Option<u64>,
    pub manifest: Option<ManifestModel>,
    pub progress: Progress,
    pub backend: Seq<char>,
    pub error: Option<Seq<char>>,
    pub failure_kind: Option<TransferFailureKind>,
}

impl View for TransferSession {
    type V = SessionModel;

    open spec fn view(&self) -> SessionModel {
        SessionModel {
            id: self.id,
            role: self.role,
            state: self.state,
            code: optional_text(self.code),
            created_at: self.created_at,
            expires_at: self.expires_at,
            manifest: optional_manifest(self.manifest),
            progress: self.progress,
            backend: self.backend@,
            error: optional_text(self.error),
            failure_kind: self.failure_kind,
        }
    }
}

/// A session of which nothing has happened but that it was created.
pub open spec fn fresh_session(
    id: TransferId,
    created_at: u64,
    role: Role,
    backend: Seq<char>,
) -> SessionModel {
    SessionModel {
        id,
        role,
        state: TransferState::Created,
        code: None,
        created_at,
        expires_at: None,
        manifest: None,
        progress: Progress { transferred_bytes: 0, total_bytes: 0, speed_bps: 0 },
        backend,
        error: None,
        failure_kind: None,
    }
}

/// Reads the clock with `SystemTime::elapsed` on the Unix epoch: whole seconds since then, zero for
/// a clock that runs before it. Nothing is claimed of the time that a clock shows.
#[verifier::external_body]
pub(crate) fn now_seconds() -> (seconds: u64) {
    std::time::UNIX_EPOCH.elapsed().map_or(0, |elapsed| elapsed.as_secs())
}

impl TransferSession {
    /// A session with a fresh random identifier, created now.
    pub fn new(role: Role, backend: &str) -> (session: Self)
        ensures
            session@ == fresh_session(session.id, session.created_at, role, backend@),
            marked_random(session.id.bits()),
    {
        Self::created(TransferId::new(), now_seconds(), role, backend)
    }

    pub fn created(id: TransferId, created_at: u64, role: Role, backend: &str) -> (session: Self)
        ensures
            session@ == fresh_session(id, created_at, role, backend@),
    {
        Self {
            id,
            role,
            state: TransferState::Created,
            code: None,
            created_at,
            expires_at: None,
            manifest: None,
            progress: Progress { transferred_bytes: 0, total_bytes: 0, speed_bps: 0 },
            backend: backend.to_owned(),
            error: None,
            failure_kind: None,
        }
    }

    pub fn transition(&mut self, next: TransferState) -> (result: Result<
        (),
        StateTransitionError,
    >)
        ensures
            if old(self)@.state.may_become(next) {
                &&& result is Ok
                &&& final(self)@ == (SessionModel { state: next, ..old(self)@ })
            } else {
                &&& result == Err::<(), StateTransitionError>(
                    StateTransitionError { from: old(self)@.state, to: next },
                )
                &&& final(self)@ == old(self)@
            },
    {
        if !self.state.can_transition_to(next) {
            return Err(StateTransitionError { from: self.state, to: next });
        }
        self.state = next;
        Ok(())
    }

    pub fn set_code(&mut self, code: &str)
        ensures
            final(self)@ == (SessionModel { code: Some(code@), ..old(self)@ }),
    {
        self.code = Some(code.to_owned());
    }

    /// Stores a manifest; progress starts over with its total.
    pub fn set_manifest(&mut self, manifest: TransferManifest)
        ensures
            final(self)@ == (SessionModel {
                manifest: Some(manifest@),
                progress: Progress {
                    transferred_bytes: 0,
                    total_bytes: manifest.total_size,
                    speed_bps: 0,
                },
                ..old(self)@
            }),
    {
        self.progress =
        Progress { transferred_bytes: 0, total_bytes: manifest.total_size, speed_bps: 0 };
        self.manifest = Some(manifest);
    }

    pub fn update_progress(&mut self, transferred: u64, speed_bps: u64) -> (result: Result<
        (),
        ProgressError,
    >)
        ensures
            match old(self)@.progress.updated(
                transferred,
                old(self)@.progress.total_bytes,
                speed_bps,
            ) {
                Ok(progress) => result is Ok && final(self)@ == (SessionModel {
                    progress,
                    ..old(self)@
                }),
                Err(error) => result == Err::<(), ProgressError>(error) && final(self)@ == old(
                    self,
                )@,
            },
    {
        let total: u64 = self.progress.total_bytes;
        self.update_progress_with_total(transferred, total, speed_bps)
    }

    pub fn update_progress_with_total(&mut self, transferred: u64, total: u64, speed_bps: u64) -> (result:
        Result<(), ProgressError>)
        ensures
            match old(self)@.progress.updated(transferred, total, speed_bps) {
                Ok(progress) => result is Ok && final(self)@ == (SessionModel {
                    progress,
                    ..old(self)@
                }),
                Err(error) => result == Err::<(), ProgressError>(error) && final(self)@ == old(
                    self,
                )@,
            },
    {
        self.progress = self.progress.update(transferred, total, speed_bps)?;
        Ok(())
    }
}

/// A completed, failed or cancelled transfer stays what it is.
pub proof fn law_terminal_states_are_final(state: TransferState, next: TransferState)
    requires
        state.terminal(),
    ensures
        !state.may_become(next),
{
}

/// Every transfer that has not ended can be ended by failure or cancellation.
pub proof fn law_running_transfers_can_end(state: TransferState)
    requires
        !state.terminal(),
    ensures
        state.may_become(TransferState::Failed),
        state.may_become(TransferState::Cancelled),
{
}

/// Nothing completes without having been verified, and nothing is verified that was not under way.
pub proof fn law_completion_is_verified(state: TransferState, next: TransferState)
    requires
        state.may_become(next),
    ensures
        next == TransferState::Completed ==> state == TransferState::Verifying,
        next == TransferState::Verifying ==> state == TransferState::Transferring,
        next == TransferState::Transferring ==> state == TransferState::Authenticating || state
            == TransferState::Negotiating || state == TransferState::Resuming,
        next != TransferState::Created,
{
}

/// A transfer can go all the way, with or without a connection of its own and negotiation, and can
/// be paused and resumed on the way.
pub proof fn law_transfers_can_go_all_the_way()
    ensures
        TransferState::Created.may_become(TransferState::Connecting),
        TransferState::Connecting.may_become(TransferState::Connected),
        TransferState::Connecting.may_become(TransferState::Authenticating),
        TransferState::Connected.may_become(TransferState::Authenticating),
        TransferState::Authenticating.may_become(TransferState::Negotiating),
        TransferState::Authenticating.may_become(TransferState::Transferring),
        TransferState::Negotiating.may_become(TransferState::Transferring),
        TransferState::Transferring.may_become(TransferState::Paused),
        TransferState::Paused.may_become(TransferState::Resuming),
        TransferState::Resuming.may_become(TransferState::Transferring),
        TransferState::Transferring.may_become(TransferState::Verifying),
        TransferState::Verifying.may_become(TransferState::Completed),
{
}

/// No step is left out, and none leads back: what each state may follow, beside that every transfer
/// that has not ended may fail or be cancelled.
pub proof fn law_no_step_is_left_out(state: TransferState, next: TransferState)
    requires
        state.may_become(next),
    ensures
        state != TransferState::Completed,
        state != TransferState::Failed,
        state != TransferState::Cancelled,
        next != TransferState::Created,
        next != state,
        next == TransferState::Connecting ==> state == TransferState::Created,
        next == TransferState::Connected ==> state == TransferState::Connecting,
        next == TransferState::Authenticating ==> state == TransferState::Connected || state
            == TransferState::Connecting,
        next == TransferState::Negotiating ==> state == TransferState::Authenticating,
        next == TransferState::Transferring ==> state == TransferState::Authenticating || state
            == TransferState::Negotiating || state == TransferState::Resuming,
        next == TransferState::Paused ==> state == TransferState::Transferring,
        next == TransferState::Resuming ==> state == TransferState::Paused,
        next == TransferState::Verifying ==> state == TransferState::Transferring,
        next == TransferState::Completed ==> state == TransferState::Verifying,
{
}

/// Three states end a transfer, and no other does.
pub proof fn law_three_states_end_a_transfer(state: TransferState)
    ensures
        state.terminal() <==> state == TransferState::Completed || state == TransferState::Failed
            || state == TransferState::Cancelled,
        state.terminal() <==> !state.may_become(TransferState::Failed),
        state.terminal() <==> !state.may_become(TransferState::Cancelled),
{
}

/// A new attempt is worth while after a failure of the network or an interruption, and after
/// nothing else: what was wrong with the request, the files or what was received stays wrong.
pub proof fn law_interruptions_are_retried(kind: TransferFailureKind)
    ensures
        TransferFailureKind::Network.retryable(),
        TransferFailureKind::ProcessInterruption.retryable(),
        kind.retryable() ==> kind == TransferFailureKind::Network || kind
            == TransferFailureKind::ProcessInterruption,
{
}

} // verus!
