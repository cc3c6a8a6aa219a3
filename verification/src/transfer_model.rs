//! What is known of all transfers together, and how each step changes it.
use vstd::prelude::*;
use crate::backend::{
    BackendCapability, BackendError, BackendEventModel, BackendInfo, BackendProtocolError,
    ReceiveModel, ReceiveRequest, SendModel, SendRequest,
};
use crate::destination::DestinationError;
use crate::ident::TransferId;
use crate::manifest::{ManifestModel, TransferManifest};
use crate::progress::Progress;
use crate::resume::{
    optional_manifest, ResumeCapabilities, ResumeModel, ResumeRequestModel, ResumeState,
    DEFAULT_RESUME_CHUNK_SIZE, RESUME_SCHEMA_VERSION,
};
use crate::resume_store::{optional_state, StorageError};
use crate::session::{
    fresh_session, Role, SessionModel, StateTransitionError, TransferCapability, TransferError,
    TransferErrorModel, TransferEvent, TransferFailureKind, TransferState,
};
use crate::staging::{ReceiveFinalizeReport, ReceiveStaging, ReceiveStagingError, StagingModel};

verus! {

#[derive(Debug, Clone, Copy, PartialEq, Eq, Structural)]
pub struct TransferNotification {
    pub transfer_id: TransferId,
    pub event: TransferEvent,
}

/// What a transfer was asked to do, kept for as long as it may be tried again.
pub enum RetryRequest {
    Send { request: SendRequest, manifest: Option<TransferManifest> },
    Receive { request: ReceiveRequest, staging: ReceiveStaging },
}

#[verifier::ext_equal]
pub enum RetryModel {
    Send { request: SendModel, manifest: Option<ManifestModel> },
    Receive { request: ReceiveModel, staging: StagingModel },
}

impl View for RetryRequest {
    type V = RetryModel;

    open spec fn view(&self) -> RetryModel {
        match *self {
            RetryRequest::Send { request, manifest } => RetryModel::Send {
                request: request@,
                manifest: optional_manifest(manifest),
            },
            RetryRequest::Receive { request, staging } => RetryModel::Receive {
                request: request@,
                staging: staging@,
            },
        }
    }
}

/// What is left to do outside once an attempt has ended.
pub struct AttemptEnd {
    /// Metadata to save, so that the transfer can be recovered.
    pub persist: Option<ResumeState>,
    /// A staging directory to remove.
    pub clean_staging: Option<ReceiveStaging>,
    /// Whether metadata of the transfer is to be removed.
    pub remove_metadata: bool,
}

#[verifier::ext_equal]
pub struct EndModel {
    pub persist: Option<ResumeModel>,
    pub clean_staging: Option<StagingModel>,
    pub remove_metadata: bool,
}

pub open spec fn optional_staging(staging: Option<ReceiveStaging>) -> Option<StagingModel> {
    match staging {
        Some(staging) => Some(staging@),
        None => None,
    }
}

impl View for AttemptEnd {
    type V = EndModel;

    open spec fn view(&self) -> EndModel {
        EndModel {
            persist: optional_state(self.persist),
            clean_staging: optional_staging(self.clean_staging),
            remove_metadata: self.remove_metadata,
        }
    }
}

/// How an attempt ends: at once, or once what was received is published.
pub enum FinishStep {
    Finalize,
    Ended(AttemptEnd),
}

#[verifier::ext_equal]
pub enum FinishModel {
    Finalize,
    Ended(EndModel),
}

impl View for FinishStep {
    type V = FinishModel;

    open spec fn view(&self) -> FinishModel {
        match *self {
            FinishStep::Finalize => FinishModel::Finalize,
            FinishStep::Ended(end) => FinishModel::Ended(end@),
        }
    }
}

/// The steps from a backend that answered to a transfer that runs.
#[derive(Debug, Clone, Copy, PartialEq, Eq, Structural)]
pub enum EstablishStep {
    Connected,
    Authenticating,
    Negotiating,
    Transferring,
}

impl EstablishStep {
    pub open spec fn state_spec(self) -> TransferState {
        match self {
            EstablishStep::Connected => TransferState::Connected,
            EstablishStep::Authenticating => TransferState::Authenticating,
            EstablishStep::Negotiating => TransferState::Negotiating,
            EstablishStep::Transferring => TransferState::Transferring,
        }
    }

    pub open spec fn event_spec(self) -> TransferEvent {
        match self {
            EstablishStep::Connected => TransferEvent::Connected,
            EstablishStep::Authenticating => TransferEvent::Authenticating,
            EstablishStep::Negotiating => TransferEvent::Negotiating,
            EstablishStep::Transferring => TransferEvent::Started,
        }
    }

    /// The attempt's next step after this one.
    pub open spec fn next_spec(self) -> AttemptModel {
        match self {
            EstablishStep::Connected => AttemptModel::Establish(EstablishStep::Authenticating),
            EstablishStep::Authenticating => AttemptModel::Establish(EstablishStep::Negotiating),
            EstablishStep::Negotiating => AttemptModel::Establish(EstablishStep::Transferring),
            EstablishStep::Transferring => AttemptModel::Monitor,
        }
    }

    pub(crate) fn next(self) -> (next: AttemptStep)
        ensures
            next@ == self.next_spec(),
    {
        match self {
            Self::Connected => AttemptStep::Establish(Self::Authenticating),
            Self::Authenticating => AttemptStep::Establish(Self::Negotiating),
            Self::Negotiating => AttemptStep::Establish(Self::Transferring),
            Self::Transferring => AttemptStep::Monitor,
        }
    }

    pub(crate) fn state(self) -> (state: TransferState)
        ensures
            state == self.state_spec(),
    {
        match self {
            Self::Connected => TransferState::Connected,
            Self::Authenticating => TransferState::Authenticating,
            Self::Negotiating => TransferState::Negotiating,
            Self::Transferring => TransferState::Transferring,
        }
    }

    pub(crate) fn event(self) -> (event: TransferEvent)
        ensures
            event == self.event_spec(),
    {
        match self {
            Self::Connected => TransferEvent::Connected,
            Self::Authenticating => TransferEvent::Authenticating,
            Self::Negotiating => TransferEvent::Negotiating,
            Self::Transferring => TransferEvent::Started,
        }
    }
}

/// What is to be done next for an attempt.
pub enum AttemptStep {
    /// Call the backend, until it answers or the attempt is cancelled.
    Contact,
    /// Go on to the next state.
    Establish(EstablishStep),
    /// Cancel what the backend does, then end the attempt as cancelled.
    CancelHandle,
    /// Follow what the backend reports.
    Monitor,
    Ended(AttemptEnd),
}

#[verifier::ext_equal]
pub enum AttemptModel {
    Contact,
    Establish(EstablishStep),
    CancelHandle,
    Monitor,
    Ended(EndModel),
}

impl View for AttemptStep {
    type V = AttemptModel;

    open spec fn view(&self) -> AttemptModel {
        match *self {
            AttemptStep::Contact => AttemptModel::Contact,
            AttemptStep::Establish(step) => AttemptModel::Establish(step),
            AttemptStep::CancelHandle => AttemptModel::CancelHandle,
            AttemptStep::Monitor => AttemptModel::Monitor,
            AttemptStep::Ended(end) => AttemptModel::Ended(end@),
        }
    }
}

/// What cancelling a transfer asks for.
#[derive(Debug, Clone, Copy, PartialEq, Eq, Structural)]
pub enum CancelStep {
    /// It is cancelled.
    Done,
    /// Its attempt runs: tell it to stop, and wait until it has ended.
    Signal,
}

/// A transfer to start in place of one that was interrupted.
pub enum RecoveryPlan {
    Send { request: SendRequest, manifest: Option<TransferManifest> },
    Receive { request: ReceiveRequest },
}

#[verifier::ext_equal]
pub enum RecoveryModel {
    Send { request: SendModel, manifest: Option<ManifestModel> },
    Receive { request: ReceiveModel },
}

impl View for RecoveryPlan {
    type V = RecoveryModel;

    open spec fn view(&self) -> RecoveryModel {
        match *self {
            RecoveryPlan::Send { request, manifest } => RecoveryModel::Send {
                request: request@,
                manifest: optional_manifest(manifest),
            },
            RecoveryPlan::Receive { request } => RecoveryModel::Receive { request: request@ },
        }
    }
}

/// What the manager knows.
#[verifier::ext_equal]
pub struct ManagerModel {
    pub backend_name: Seq<char>,
    pub info: BackendInfo,
    pub keeps_recovery: bool,
    pub sessions: Map<u128, SessionModel>,
    /// Where completed transfers were received to.
    pub destinations: Map<u128, Seq<char>>,
    /// The transfers with an attempt under way.
    pub active: Set<u128>,
    pub retries: Map<u128, RetryModel>,
    /// What has happened and has not been handed out yet.
    pub events: Seq<TransferNotification>,
}

pub open spec fn not_found() -> TransferErrorModel {
    TransferErrorModel::Backend("transfer session not found"@)
}

pub open spec fn at<V>(map: Map<u128, V>, id: TransferId) -> Option<V> {
    if map.contains_key(id.bits()) {
        Some(map[id.bits()])
    } else {
        None
    }
}

/// A manifest as one of another transfer.
pub open spec fn moved_manifest(manifest: Option<ManifestModel>, id: TransferId) -> Option<
    ManifestModel,
> {
    match manifest {
        Some(manifest) => Some(ManifestModel { transfer_id: id, ..manifest }),
        None => None,
    }
}

/// The new session of a transfer that sends.
pub open spec fn sending_session(
    id: TransferId,
    created_at: u64,
    backend: Seq<char>,
    manifest: Option<ManifestModel>,
) -> SessionModel {
    let fresh = fresh_session(id, created_at, Role::Sender, backend);
    match manifest {
        None => fresh,
        Some(manifest) => SessionModel {
            manifest: Some(ManifestModel { transfer_id: id, ..manifest }),
            progress: Progress {
                transferred_bytes: 0,
                total_bytes: manifest.total_size,
                speed_bps: 0,
            },
            ..fresh
        },
    }
}

/// The new session of a transfer that receives.
pub open spec fn receiving_session(
    id: TransferId,
    created_at: u64,
    backend: Seq<char>,
    code: Seq<char>,
) -> SessionModel {
    SessionModel {
        code: Some(code),
        ..fresh_session(id, created_at, Role::Receiver, backend)
    }
}

pub open spec fn needed_capability(capability: TransferCapability) -> BackendCapability {
    match capability {
        TransferCapability::Progress => BackendCapability::Progress,
        TransferCapability::Pause => BackendCapability::Pause,
        TransferCapability::Resume => BackendCapability::Resume,
    }
}

/// What a capability of a backend is called where transfers are spoken of.
pub open spec fn told_capability(capability: BackendCapability) -> Option<TransferCapability> {
    match capability {
        BackendCapability::Progress => Some(TransferCapability::Progress),
        BackendCapability::Pause => Some(TransferCapability::Pause),
        BackendCapability::Resume => Some(TransferCapability::Resume),
        BackendCapability::Direct | BackendCapability::Relay => None,
    }
}

pub open spec fn malformed() -> BackendError {
    BackendError::Protocol { reason: BackendProtocolError::MalformedMessage }
}

pub open spec fn optional_static(text: Option<&'static str>) -> Option<Seq<char>> {
    match text {
        Some(text) => Some(text@),
        None => None,
    }
}

impl ManagerModel {
    pub open spec fn session(self, id: TransferId) -> Option<SessionModel> {
        at(self.sessions, id)
    }

    pub open spec fn with_session(self, id: TransferId, session: SessionModel) -> ManagerModel {
        ManagerModel { sessions: self.sessions.insert(id.bits(), session), ..self }
    }

    pub open spec fn emitted(self, id: TransferId, event: TransferEvent) -> ManagerModel {
        ManagerModel {
            events: self.events.push(TransferNotification { transfer_id: id, event }),
            ..self
        }
    }

    /// A transfer goes on to its next state, and that is told.
    pub open spec fn advanced(
        self,
        id: TransferId,
        next: TransferState,
        event: TransferEvent,
    ) -> Result<ManagerModel, TransferErrorModel> {
        match self.session(id) {
            None => Err(not_found()),
            Some(session) => if session.state.may_become(next) {
                Ok(self.with_session(id, SessionModel { state: next, ..session }).emitted(id, event))
            } else {
                Err(
                    TransferErrorModel::InvalidStateTransition(
                        StateTransitionError { from: session.state, to: next },
                    ),
                )
            },
        }
    }

    /// A transfer fails, and that is told.
    pub open spec fn failed_with(
        self,
        id: TransferId,
        message: Seq<char>,
        kind: TransferFailureKind,
    ) -> Result<ManagerModel, TransferErrorModel> {
        match self.session(id) {
            None => Err(not_found()),
            Some(session) => if session.state.may_become(TransferState::Failed) {
                let failed = SessionModel {
                    state: TransferState::Failed,
                    error: Some(message),
                    failure_kind: Some(kind),
                    ..session
                };
                Ok(self.with_session(id, failed).emitted(id, TransferEvent::Failed))
            } else {
                Err(
                    TransferErrorModel::InvalidStateTransition(
                        StateTransitionError { from: session.state, to: TransferState::Failed },
                    ),
                )
            },
        }
    }

    /// A transfer is cancelled, once: that is told, and it is not tried again.
    pub open spec fn cancelled(self, id: TransferId) -> Result<ManagerModel, TransferErrorModel> {
        match self.session(id) {
            None => Err(not_found()),
            Some(session) => if session.state == TransferState::Cancelled {
                Ok(self)
            } else if session.state.terminal() {
                Err(TransferErrorModel::CancelNotAllowed(session.state))
            } else {
                let without = ManagerModel { retries: self.retries.remove(id.bits()), ..self };
                Ok(
                    without.with_session(
                        id,
                        SessionModel { state: TransferState::Cancelled, ..session },
                    ).emitted(id, TransferEvent::Cancelled),
                )
            },
        }
    }

    /// Reported progress counts while bytes move.
    pub open spec fn progressed(
        self,
        id: TransferId,
        transferred: u64,
        total: u64,
        speed_bps: u64,
    ) -> Result<ManagerModel, TransferErrorModel> {
        match self.session(id) {
            None => Err(not_found()),
            Some(session) => if session.state != TransferState::Transferring && session.state
                != TransferState::Resuming {
                Err(TransferErrorModel::ProgressNotAllowed(session.state))
            } else {
                match session.progress.updated(transferred, total, speed_bps) {
                    Err(error) => Err(TransferErrorModel::InvalidProgress(error)),
                    Ok(progress) => Ok(
                        self.with_session(id, SessionModel { progress, ..session }).emitted(
                            id,
                            TransferEvent::Progress { transferred, total, speed_bps },
                        ),
                    ),
                }
            },
        }
    }

    pub open spec fn with_code(self, id: TransferId, code: Seq<char>) -> ManagerModel {
        match self.session(id) {
            None => self,
            Some(session) => self.with_session(
                id,
                SessionModel { code: Some(code), ..session },
            ).emitted(id, TransferEvent::CodeAvailable),
        }
    }

    /// What a report of the backend changes; or that it breaks the protocol.
    pub open spec fn reported(self, id: TransferId, event: BackendEventModel) -> Result<
        ManagerModel,
        BackendError,
    > {
        match event {
            BackendEventModel::CodeGenerated { code } => Ok(self.with_code(id, code)),
            BackendEventModel::MetadataReady => if self.session(id) matches Some(session)
                && session.state == TransferState::Negotiating {
                match self.advanced(id, TransferState::Transferring, TransferEvent::MetadataReady) {
                    Ok(next) => Ok(next),
                    Err(_) => Err(malformed()),
                }
            } else {
                Ok(self)
            },
            BackendEventModel::Progress { transferred, total, speed_bps } => {
                match self.progressed(id, transferred, total, speed_bps) {
                    Ok(next) => Ok(next),
                    Err(TransferErrorModel::ProgressNotAllowed(_)) => Ok(self),
                    Err(_) => Err(malformed()),
                }
            },
            BackendEventModel::CapabilityUnavailable { capability } => {
                match told_capability(capability) {
                    None => Ok(self),
                    Some(capability) => Ok(
                        self.emitted(id, TransferEvent::CapabilityUnavailable { capability }),
                    ),
                }
            },
        }
    }

    /// The metadata that a transfer can be recovered with, where it is kept. The code is not in it.
    pub open spec fn recovery(self, id: TransferId) -> Option<ResumeModel> {
        if !self.keeps_recovery || self.session(id) is None {
            None
        } else {
            let session = self.session(id)->Some_0;
            let common = ResumeModel {
                schema_version: RESUME_SCHEMA_VERSION,
                transfer_id: id,
                backend: session.backend,
                backend_version: optional_static(self.info.version),
                capabilities: ResumeCapabilities {
                    pause: self.info.capabilities.has(BackendCapability::Pause),
                    resume: self.info.capabilities.has(BackendCapability::Resume),
                },
                request: ResumeRequestModel::Send { source_paths: Seq::empty() },
                manifest: None,
                file_id: 0,
                chunk_size: DEFAULT_RESUME_CHUNK_SIZE,
                file_size: 0,
                completed_chunks: Seq::empty(),
                file_digest: None,
                temp_file_path: None,
            };
            match at(self.retries, id) {
                None => None,
                Some(RetryModel::Send { request, manifest }) => {
                    let sent = ResumeModel {
                        request: ResumeRequestModel::Send { source_paths: request.paths },
                        manifest,
                        ..common
                    };
                    if manifest matches Some(list) && list.files.len() > 0 {
                        Some(
                            ResumeModel {
                                file_id: manifest->Some_0.files[0].file_id,
                                file_size: manifest->Some_0.files[0].size,
                                file_digest: manifest->Some_0.files[0].digest,
                                ..sent
                            },
                        )
                    } else {
                        Some(sent)
                    }
                },
                Some(RetryModel::Receive { request, staging }) => Some(
                    ResumeModel {
                        request: ResumeRequestModel::Receive {
                            output_directory: request.output_directory,
                        },
                        temp_file_path: Some(staging.relative_path),
                        ..common
                    },
                ),
            }
        }
    }

    /// A transfer that sends is under way.
    pub open spec fn sending(
        self,
        id: TransferId,
        created_at: u64,
        request: SendModel,
        manifest: Option<ManifestModel>,
    ) -> ManagerModel {
        ManagerModel {
            active: self.active.insert(id.bits()),
            retries: self.retries.insert(
                id.bits(),
                RetryModel::Send { request, manifest: moved_manifest(manifest, id) },
            ),
            ..self
        }.with_session(id, sending_session(id, created_at, self.backend_name, manifest)).emitted(
            id,
            TransferEvent::Created,
        )
    }

    /// A transfer that receives is under way; its code is known from the start.
    pub open spec fn receiving(
        self,
        id: TransferId,
        created_at: u64,
        request: ReceiveModel,
        staging: StagingModel,
    ) -> ManagerModel {
        ManagerModel {
            active: self.active.insert(id.bits()),
            retries: self.retries.insert(id.bits(), RetryModel::Receive { request, staging }),
            ..self
        }.with_session(
            id,
            receiving_session(id, created_at, self.backend_name, request.code),
        ).emitted(id, TransferEvent::Created).emitted(id, TransferEvent::CodeAvailable)
    }

    /// The staging directory that a transfer receives to.
    pub open spec fn staging_of(self, id: TransferId) -> Option<StagingModel> {
        match at(self.retries, id) {
            Some(RetryModel::Receive { staging, .. }) => Some(staging),
            _ => None,
        }
    }

    /// An attempt is over. Unless it may be tried again, nothing of it is kept.
    pub open spec fn ended(self, id: TransferId, keep: bool, persist: Option<ResumeModel>) -> (
        ManagerModel,
        EndModel,
    ) {
        (
            ManagerModel {
                active: self.active.remove(id.bits()),
                retries: if keep {
                    self.retries
                } else {
                    self.retries.remove(id.bits())
                },
                ..self
            },
            EndModel {
                persist,
                clean_staging: if keep {
                    None
                } else {
                    self.staging_of(id)
                },
                remove_metadata: !keep && self.keeps_recovery,
            },
        )
    }

    /// What is left where a step could not be taken: what was there before.
    pub open spec fn or_unchanged(self, next: Result<ManagerModel, TransferErrorModel>) -> ManagerModel {
        match next {
            Ok(next) => next,
            Err(_) => self,
        }
    }

    /// The last step of a transfer that went well.
    pub open spec fn completing(self, id: TransferId, destination: Option<Seq<char>>) -> (
        ManagerModel,
        EndModel,
    ) {
        match self.advanced(id, TransferState::Completed, TransferEvent::Completed) {
            Ok(next) => match destination {
                Some(destination) => ManagerModel {
                    destinations: self.destinations.insert(id.bits(), destination),
                    ..next
                }.ended(id, false, None),
                None => next.ended(id, false, None),
            },
            Err(_) => ManagerModel {
                destinations: self.destinations.remove(id.bits()),
                ..self
            }.ended(id, false, None),
        }
    }

    /// What becomes of an attempt that is over.
    pub open spec fn finished(
        self,
        id: TransferId,
        result: Result<(), BackendError>,
        cancelled: bool,
    ) -> (ManagerModel, FinishModel) {
        if cancelled || (result matches Err(error) && error is Cancelled) {
            let (next, end) = self.or_unchanged(self.cancelled(id)).ended(id, false, None);
            (next, FinishModel::Ended(end))
        } else {
            match result {
                Ok(_) => {
                    match self.advanced(id, TransferState::Verifying, TransferEvent::Verifying) {
                        Err(_) => {
                            let failed = self.failed_with(
                                id,
                                malformed().safe_text(),
                                malformed().kind(),
                            );
                            let (next, end) = self.or_unchanged(failed).ended(id, false, None);
                            (next, FinishModel::Ended(end))
                        },
                        Ok(verifying) => if self.staging_of(id) is Some {
                            (verifying, FinishModel::Finalize)
                        } else {
                            let (next, end) = verifying.completing(id, None);
                            (next, FinishModel::Ended(end))
                        },
                    }
                },
                Err(error) => {
                    let failed = self.or_unchanged(
                        self.failed_with(id, error.safe_text(), error.kind()),
                    );
                    let (next, end) = if failed.may_retry(id) {
                        failed.ended(id, true, failed.recovery(id))
                    } else {
                        failed.ended(id, false, None)
                    };
                    (next, FinishModel::Ended(end))
                },
            }
        }
    }

    /// The transfer failed in a way that a new attempt may overcome.
    pub open spec fn may_retry(self, id: TransferId) -> bool {
        self.session(id) matches Some(session) && session.failure_kind matches Some(kind)
            && kind.retryable()
    }

    /// What becomes of a transfer once what it received was published, or could not be.
    pub open spec fn published(
        self,
        id: TransferId,
        outcome: Result<ReceiveFinalizeReport, ReceiveStagingError>,
    ) -> (ManagerModel, EndModel) {
        match outcome {
            Err(error) => self.or_unchanged(
                self.failed_with(id, staging_text(error), staging_failure_kind(error)),
            ).ended(id, false, None),
            Ok(_) => self.completing(
                id,
                match self.staging_of(id) {
                    Some(staging) => Some(staging.destination),
                    None => None,
                },
            ),
        }
    }

    /// A user cancels a transfer: at once where no attempt is under way, and else through it.
    pub open spec fn cancelling(self, id: TransferId) -> (
        ManagerModel,
        Result<CancelStep, TransferErrorModel>,
    ) {
        match self.session(id) {
            None => (self, Err(not_found())),
            Some(session) => if session.state == TransferState::Cancelled {
                (self, Ok(CancelStep::Done))
            } else if session.state.terminal() {
                (self, Err(TransferErrorModel::CancelNotAllowed(session.state)))
            } else if self.active.contains(id.bits()) {
                (self, Ok(CancelStep::Signal))
            } else {
                (self.or_unchanged(self.cancelled(id)), Ok(CancelStep::Done))
            },
        }
    }

    /// An attempt that was cancelled before it was under way.
    pub open spec fn given_up(self, id: TransferId) -> (ManagerModel, AttemptModel) {
        let (next, end) = self.or_unchanged(self.cancelled(id)).ended(id, false, None);
        (next, AttemptModel::Ended(end))
    }

    /// Before the backend is called to send.
    pub open spec fn contacting_sender(self, id: TransferId, cancelled: bool) -> (
        ManagerModel,
        Result<AttemptModel, TransferErrorModel>,
    ) {
        if cancelled {
            (self.given_up(id).0, Ok(self.given_up(id).1))
        } else {
            match self.advanced(id, TransferState::Connecting, TransferEvent::Connecting) {
                Ok(next) => (next, Ok(AttemptModel::Contact)),
                Err(error) => (self, Err(error)),
            }
        }
    }

    /// Before the backend is called to receive.
    pub open spec fn contacting_receiver(self, id: TransferId, cancelled: bool) -> (
        ManagerModel,
        AttemptModel,
    ) {
        if cancelled {
            self.given_up(id)
        } else {
            match self.advanced(id, TransferState::Connecting, TransferEvent::Connecting) {
                Ok(next) => (next, AttemptModel::Contact),
                Err(_) => {
                    let failed = self.failed_with(
                        id,
                        "receive could not start"@,
                        TransferFailureKind::Unknown,
                    );
                    let (next, end) = self.or_unchanged(failed).ended(id, false, None);
                    (next, AttemptModel::Ended(end))
                },
            }
        }
    }

    /// The backend answered, or could not be reached.
    pub open spec fn answered(
        self,
        id: TransferId,
        outcome: Result<(), BackendError>,
        cancelled: bool,
    ) -> (ManagerModel, AttemptModel) {
        match outcome {
            Ok(_) => if cancelled {
                (self, AttemptModel::CancelHandle)
            } else {
                (self, AttemptModel::Establish(EstablishStep::Connected))
            },
            Err(_) => match self.finished(id, outcome, cancelled) {
                (next, FinishModel::Ended(end)) => (next, AttemptModel::Ended(end)),
                (next, FinishModel::Finalize) => (next, AttemptModel::Monitor),
            },
        }
    }

    /// One step nearer to a transfer that runs.
    pub open spec fn establishing(self, id: TransferId, step: EstablishStep, cancelled: bool) -> (
        ManagerModel,
        Result<AttemptModel, TransferErrorModel>,
    ) {
        if cancelled {
            (self, Ok(AttemptModel::CancelHandle))
        } else {
            match self.advanced(id, step.state_spec(), step.event_spec()) {
                Ok(next) => (next, Ok(step.next_spec())),
                Err(error) => (self, Err(error)),
            }
        }
    }

    /// Why a transfer cannot be tried again, if it cannot.
    pub open spec fn retry_fault(self, id: TransferId) -> Option<TransferErrorModel> {
        match self.session(id) {
            None => Some(not_found()),
            Some(session) => if session.state != TransferState::Failed || !self.may_retry(id)
                || at(self.retries, id) is None {
                Some(TransferErrorModel::RetryNotAllowed(session.state))
            } else {
                None
            },
        }
    }

    /// What to start in place of an interrupted transfer; or why nothing can be.
    pub open spec fn recovered(
        self,
        state: ResumeModel,
        code: Option<Seq<char>>,
        directory: Option<Seq<char>>,
    ) -> Result<RecoveryModel, TransferErrorModel> {
        if state.fault() is Some {
            Err(TransferErrorModel::Backend("invalid resume metadata"@))
        } else if state.backend != self.backend_name || state.backend_version != optional_static(
            self.info.version,
        ) {
            Err(TransferErrorModel::Backend("resume backend is incompatible"@))
        } else if state.capabilities.resume != self.info.capabilities.has(
            BackendCapability::Resume,
        ) {
            Err(TransferErrorModel::CapabilityUnavailable(TransferCapability::Resume))
        } else {
            match state.request {
                ResumeRequestModel::Send { source_paths } => if state.manifest matches Some(list)
                    && list.fault() is Some {
                    Err(TransferErrorModel::Backend("invalid sender manifest"@))
                } else {
                    Ok(
                        RecoveryModel::Send {
                            request: SendModel { paths: source_paths, relay: None },
                            manifest: state.manifest,
                        },
                    )
                },
                ResumeRequestModel::Receive { output_directory } => match code {
                    None => Err(
                        TransferErrorModel::Backend("receive recovery requires transfer code"@),
                    ),
                    Some(code) => {
                        let directory = match directory {
                            Some(directory) => directory,
                            None => output_directory,
                        };
                        if ReceiveRequest::fault(code, directory) is Some {
                            Err(TransferErrorModel::Backend("invalid resume request"@))
                        } else {
                            Ok(
                                RecoveryModel::Receive {
                                    request: ReceiveModel {
                                        code,
                                        output_directory: directory,
                                        relay: None,
                                    },
                                },
                            )
                        }
                    },
                },
            }
        }
    }
}

/// What is said of a failure to publish what was received.
pub open spec fn staging_text(error: ReceiveStagingError) -> Seq<char> {
    match error {
        ReceiveStagingError::Destination(_) => "receive destination is unavailable"@,
        ReceiveStagingError::DestinationChanged => "receive destination changed during transfer"@,
        ReceiveStagingError::EmptyOutput => "received output was empty"@,
        ReceiveStagingError::InvalidOutputPath => "received output path was unsafe"@,
        ReceiveStagingError::SymlinkOutput => "received output contained a symbolic link"@,
        ReceiveStagingError::Conflict => "received output already exists"@,
        ReceiveStagingError::Io(_) | ReceiveStagingError::Rollback(_) =>
            "receive finalization failed"@,
    }
}

pub fn safe_receive_staging_error(error: ReceiveStagingError) -> (message: &'static str)
    ensures
        message@ == staging_text(error),
{
    match error {
        ReceiveStagingError::Destination(_) => "receive destination is unavailable",
        ReceiveStagingError::DestinationChanged => "receive destination changed during transfer",
        ReceiveStagingError::EmptyOutput => "received output was empty",
        ReceiveStagingError::InvalidOutputPath => "received output path was unsafe",
        ReceiveStagingError::SymlinkOutput => "received output contained a symbolic link",
        ReceiveStagingError::Conflict => "received output already exists",
        ReceiveStagingError::Io(_) | ReceiveStagingError::Rollback(_) => {
            "receive finalization failed"
        },
    }
}

pub open spec fn staging_failure_kind(error: ReceiveStagingError) -> TransferFailureKind {
    match error {
        ReceiveStagingError::Destination(DestinationError::SymlinkNotAllowed)
        | ReceiveStagingError::InvalidOutputPath
        | ReceiveStagingError::SymlinkOutput => TransferFailureKind::Security,
        ReceiveStagingError::EmptyOutput => TransferFailureKind::Integrity,
        _ => TransferFailureKind::Filesystem,
    }
}

pub fn receive_staging_failure_kind(error: ReceiveStagingError) -> (kind: TransferFailureKind)
    ensures
        kind == staging_failure_kind(error),
{
    match error {
        ReceiveStagingError::Destination(DestinationError::SymlinkNotAllowed)
        | ReceiveStagingError::InvalidOutputPath
        | ReceiveStagingError::SymlinkOutput => TransferFailureKind::Security,
        ReceiveStagingError::EmptyOutput => TransferFailureKind::Integrity,
        ReceiveStagingError::Destination(_)
        | ReceiveStagingError::DestinationChanged
        | ReceiveStagingError::Conflict
        | ReceiveStagingError::Io(_)
        | ReceiveStagingError::Rollback(_) => TransferFailureKind::Filesystem,
    }
}

/// What is said where no staging directory could be made.
pub fn map_receive_staging_creation_error(error: ReceiveStagingError) -> (mapped: TransferError)
    ensures
        mapped@ == TransferErrorModel::Filesystem(
            if error is Io {
                "receive staging is unavailable"@
            } else {
                staging_text(error)
            },
        ),
{
    let message = match error {
        ReceiveStagingError::Io(_) => "receive staging is unavailable",
        _ => safe_receive_staging_error(error),
    };
    TransferError::Filesystem(message.to_owned())
}

pub open spec fn storage_text(error: StorageError) -> Seq<char> {
    match error {
        StorageError::Io(_) => "resume storage unavailable"@,
        StorageError::Serialization => "resume metadata is unreadable"@,
        StorageError::InvalidResume(_) => "resume metadata is invalid"@,
    }
}

pub fn safe_storage_error(error: StorageError) -> (message: &'static str)
    ensures
        message@ == storage_text(error),
{
    match error {
        StorageError::Io(_) => "resume storage unavailable",
        StorageError::Serialization => "resume metadata is unreadable",
        StorageError::InvalidResume(_) => "resume metadata is invalid",
    }
}

pub fn map_storage_error(error: StorageError) -> (mapped: TransferError)
    ensures
        mapped@ == TransferErrorModel::Backend(storage_text(error)),
{
    TransferError::Backend(safe_storage_error(error).to_owned())
}

} // verus!
