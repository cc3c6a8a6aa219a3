//! All transfers together: their sessions, what may be tried again, and what is told about them.
use std::collections::{HashMap, HashSet};
use vstd::prelude::*;
use vstd::std_specs::iter::IteratorSpec;
use crate::backend::{
    BackendCapabilities, BackendCapability, BackendError, BackendEvent, BackendInfo,
    BackendProtocolError, ReceiveModel, ReceiveRequest, SendRequest, TransferBackend,
};
use crate::ident::{marked_random, TransferId};
use crate::manifest::{ManifestModel, TransferManifest};
use crate::resume::{
    copy_texts, optional_manifest, ResumeCapabilities, ResumeRequest, ResumeState,
    DEFAULT_RESUME_CHUNK_SIZE, RESUME_SCHEMA_VERSION,
};
use crate::resume_store::optional_state;
use crate::session::{
    now_seconds, Role, SessionModel, TransferCapability, TransferError, TransferErrorModel,
    TransferEvent, TransferFailureKind, TransferSession, TransferState,
};
use crate::staging::{ReceiveFinalizeReport, ReceiveStaging, ReceiveStagingError};
use crate::text::{copy_optional, optional_text, same_text};
use crate::transfer_model::{
    at, malformed, moved_manifest, needed_capability, not_found, receive_staging_failure_kind,
    safe_receive_staging_error, AttemptEnd, AttemptModel, AttemptStep, CancelStep, EstablishStep,
    FinishModel, FinishStep, ManagerModel, RecoveryPlan, RetryModel, RetryRequest,
    TransferNotification,
};

verus! {

pub open spec fn session_models(sessions: Map<u128, TransferSession>) -> Map<u128, SessionModel> {
    sessions.map_values(|session: TransferSession| session@)
}

pub open spec fn retry_models(retries: Map<u128, RetryRequest>) -> Map<u128, RetryModel> {
    retries.map_values(|retry: RetryRequest| retry@)
}

pub open spec fn text_values(texts: Map<u128, String>) -> Map<u128, Seq<char>> {
    texts.map_values(|text: String| text@)
}

/// Keeps all transfers, and lets each go on only as its state allows.
pub struct TransferManager {
    backend_name: String,
    info: BackendInfo,
    keeps_recovery: bool,
    sessions: HashMap<u128, TransferSession>,
    destinations: HashMap<u128, String>,
    active: HashSet<u128>,
    retries: HashMap<u128, RetryRequest>,
    events: Vec<TransferNotification>,
}

impl View for TransferManager {
    type V = ManagerModel;

    closed spec fn view(&self) -> ManagerModel {
        ManagerModel {
            backend_name: self.backend_name@,
            info: self.info,
            keeps_recovery: self.keeps_recovery,
            sessions: session_models(self.sessions@),
            destinations: text_values(self.destinations@),
            active: self.active@,
            retries: retry_models(self.retries@),
            events: self.events@,
        }
    }
}

/// A manager of no transfers yet.
pub open spec fn empty_manager(info: BackendInfo, name: Seq<char>, keeps_recovery: bool) -> ManagerModel {
    ManagerModel {
        backend_name: name,
        info,
        keeps_recovery,
        sessions: Map::empty(),
        destinations: Map::empty(),
        active: Set::empty(),
        retries: Map::empty(),
        events: Seq::empty(),
    }
}

fn missing_session() -> (error: TransferError)
    ensures
        error@ == not_found(),
{
    TransferError::Backend("transfer session not found".to_owned())
}

fn malformed_message() -> (error: BackendError)
    ensures
        error == malformed(),
{
    BackendError::Protocol { reason: BackendProtocolError::MalformedMessage }
}

impl TransferManager {
    fn with_info(info: BackendInfo, backend_name: &str, keeps_recovery: bool) -> (manager: Self)
        ensures
            manager@ == empty_manager(info, backend_name@, keeps_recovery),
    {
        let manager = Self {
            backend_name: backend_name.to_owned(),
            info,
            keeps_recovery,
            sessions: HashMap::new(),
            destinations: HashMap::new(),
            active: HashSet::new(),
            retries: HashMap::new(),
            events: Vec::new(),
        };
        assert(manager@ =~= empty_manager(info, backend_name@, keeps_recovery));
        manager
    }

    /// A manager of transfers by a backend, which go by the backend's own name.
    pub fn new<B: TransferBackend>(backend: &B) -> (manager: Self)
        ensures
            manager@ == empty_manager(backend.info_spec(), backend.info_spec().name@, false),
    {
        let info = backend.info();
        Self::with_info(info, info.name, false)
    }

    pub fn with_backend_name<B: TransferBackend>(backend: &B, backend_name: &str) -> (manager: Self)
        ensures
            manager@ == empty_manager(backend.info_spec(), backend_name@, false),
    {
        Self::with_info(backend.info(), backend_name, false)
    }

    /// A manager that keeps metadata, so that transfers can be recovered.
    pub fn with_resume_store<B: TransferBackend>(backend: &B, backend_name: &str) -> (manager: Self)
        ensures
            manager@ == empty_manager(backend.info_spec(), backend_name@, true),
    {
        Self::with_info(backend.info(), backend_name, true)
    }

    pub fn capabilities(&self) -> (capabilities: BackendCapabilities)
        ensures
            capabilities == self@.info.capabilities,
    {
        self.info.capabilities
    }

    pub fn backend_info(&self) -> (info: BackendInfo)
        ensures
            info == self@.info,
    {
        self.info
    }

    pub fn backend_version(&self) -> (version: Option<&'static str>)
        ensures
            version == self@.info.version,
    {
        self.info.version
    }

    pub fn session(&self, transfer_id: TransferId) -> (session: Option<&TransferSession>)
        ensures
            match session {
                Some(found) => self@.session(transfer_id) == Some(found@),
                None => self@.session(transfer_id) is None,
            },
    {
        self.sessions.get(&transfer_id.as_uuid())
    }

    /// Every session, in no particular order.
    pub fn sessions(&self) -> (sessions: Vec<&TransferSession>)
        ensures
            sessions@.len() == self@.sessions.dom().len(),
            forall|model: SessionModel|
                #[trigger] self@.sessions.values().contains(model) <==> exists|i: int|
                    0 <= i < sessions@.len() && (#[trigger] sessions@[i])@ == model,
    {
        let mut sessions: Vec<&TransferSession> = Vec::new();
        let values = self.sessions.values();
        let ghost all = IteratorSpec::remaining(&values);
        for session in iter: values
            invariant
                iter.seq() == all,
                sessions@ == all.take(iter.index()),
        {
            sessions.push(session);
        }
        assert(sessions@ =~= all);
        proof {
            let found = all.unref();
            let kept = self.sessions@;
            assert(self@.sessions.dom() =~= kept.dom());
            assert forall|model: SessionModel|
                #[trigger] self@.sessions.values().contains(model) implies exists|i: int|
                0 <= i < sessions@.len() && (#[trigger] sessions@[i])@ == model by {
                let key = choose|key: u128|
                    self@.sessions.dom().contains(key) && self@.sessions[key] == model;
                assert(kept.values().contains(kept[key]));
                assert(found.to_set().contains(kept[key]));
                let i = choose|i: int| 0 <= i < found.len() && found[i] == kept[key];
                assert(sessions@[i]@ == model);
            }
            assert forall|i: int| 0 <= i < sessions@.len() implies self@.sessions.values().contains(
                (#[trigger] sessions@[i])@,
            ) by {
                assert(found.to_set().contains(found[i]));
                assert(kept.values().contains(found[i]));
                let key = choose|key: u128| kept.dom().contains(key) && kept[key] == found[i];
                assert(self@.sessions[key] == sessions@[i]@);
            }
        }
        sessions
    }

    pub fn completed_receive_destination(&self, transfer_id: TransferId) -> (destination: Option<
        &String,
    >)
        ensures
            match destination {
                Some(found) => at(self@.destinations, transfer_id) == Some(found@),
                None => at(self@.destinations, transfer_id) is None,
            },
    {
        self.destinations.get(&transfer_id.as_uuid())
    }

    /// The staging directory that a transfer receives to.
    pub fn receive_staging(&self, transfer_id: TransferId) -> (staging: Option<&ReceiveStaging>)
        ensures
            match staging {
                Some(found) => self@.staging_of(transfer_id) == Some(found@),
                None => self@.staging_of(transfer_id) is None,
            },
    {
        match self.retries.get(&transfer_id.as_uuid()) {
            Some(RetryRequest::Receive { staging, .. }) => Some(staging),
            _ => None,
        }
    }

    /// Hands out what has happened, in order.
    pub fn take_events(&mut self) -> (events: Vec<TransferNotification>)
        ensures
            events@ == old(self)@.events,
            final(self)@ == (ManagerModel { events: Seq::empty(), ..old(self)@ }),
    {
        let mut events: Vec<TransferNotification> = Vec::new();
        std::mem::swap(&mut events, &mut self.events);
        events
    }

    fn emit(&mut self, transfer_id: TransferId, event: TransferEvent)
        ensures
            final(self)@ == old(self)@.emitted(transfer_id, event),
    {
        self.events.push(TransferNotification { transfer_id, event });
    }

    fn put_session(&mut self, transfer_id: TransferId, session: TransferSession)
        ensures
            final(self)@ == old(self)@.with_session(transfer_id, session@),
    {
        self.sessions.insert(transfer_id.as_uuid(), session);
        assert(self@.sessions =~= old(self)@.sessions.insert(transfer_id.bits(), session@));
    }

    fn drop_retry(&mut self, transfer_id: TransferId) -> (dropped: Option<RetryRequest>)
        ensures
            final(self)@ == (ManagerModel {
                retries: old(self)@.retries.remove(transfer_id.bits()),
                ..old(self)@
            }),
            match dropped {
                Some(retry) => at(old(self)@.retries, transfer_id) == Some(retry@),
                None => at(old(self)@.retries, transfer_id) is None,
            },
    {
        let dropped = self.retries.remove(&transfer_id.as_uuid());
        assert(self@.retries =~= old(self)@.retries.remove(transfer_id.bits()));
        dropped
    }

    /// Takes a session out to change it; it is put back before the change is over.
    fn take_session(&mut self, transfer_id: TransferId) -> (session: Option<TransferSession>)
        ensures
            final(self)@ == (ManagerModel {
                sessions: old(self)@.sessions.remove(transfer_id.bits()),
                ..old(self)@
            }),
            match session {
                Some(found) => old(self)@.session(transfer_id) == Some(found@),
                None => old(self)@.session(transfer_id) is None,
            },
    {
        let session = self.sessions.remove(&transfer_id.as_uuid());
        assert(self@.sessions =~= old(self)@.sessions.remove(transfer_id.bits()));
        session
    }

    fn advance(&mut self, transfer_id: TransferId, next: TransferState, event: TransferEvent) -> (result:
        Result<(), TransferError>)
        ensures
            match old(self)@.advanced(transfer_id, next, event) {
                Ok(model) => result is Ok && final(self)@ == model,
                Err(error) => result matches Err(found) && found@ == error && final(self)@ == old(self)@,
            },
    {
        match self.take_session(transfer_id) {
            None => {
                assert(self@ =~= old(self)@);
                Err(missing_session())
            },
            Some(mut session) => {
                let moved = session.transition(next);
                self.put_session(transfer_id, session);
                match moved {
                    Ok(()) => {
                        self.emit(transfer_id, event);
                        assert(self@ =~= old(self)@.advanced(transfer_id, next, event)->Ok_0);
                        Ok(())
                    },
                    Err(error) => {
                        assert(self@ =~= old(self)@);
                        Err(TransferError::InvalidStateTransition(error))
                    },
                }
            },
        }
    }

    fn fail_with(&mut self, transfer_id: TransferId, message: &str, kind: TransferFailureKind) -> (result:
        Result<(), TransferError>)
        ensures
            match old(self)@.failed_with(transfer_id, message@, kind) {
                Ok(model) => result is Ok && final(self)@ == model,
                Err(error) => result matches Err(found) && found@ == error && final(self)@ == old(self)@,
            },
    {
        match self.take_session(transfer_id) {
            None => {
                assert(self@ =~= old(self)@);
                Err(missing_session())
            },
            Some(mut session) => {
                let moved = session.transition(TransferState::Failed);
                if let Ok(()) = moved {
                    session.error = Some(message.to_owned());
                    session.failure_kind = Some(kind);
                }
                self.put_session(transfer_id, session);
                match moved {
                    Ok(()) => {
                        self.emit(transfer_id, TransferEvent::Failed);
                        assert(self@ =~= old(self)@.failed_with(transfer_id, message@, kind)->Ok_0);
                        Ok(())
                    },
                    Err(error) => {
                        assert(self@ =~= old(self)@);
                        Err(TransferError::InvalidStateTransition(error))
                    },
                }
            },
        }
    }

    fn cancel_untracked(&mut self, transfer_id: TransferId) -> (result: Result<(), TransferError>)
        ensures
            match old(self)@.cancelled(transfer_id) {
                Ok(model) => result is Ok && final(self)@ == model,
                Err(error) => result matches Err(found) && found@ == error && final(self)@ == old(self)@,
            },
    {
        match self.take_session(transfer_id) {
            None => {
                assert(self@ =~= old(self)@);
                Err(missing_session())
            },
            Some(mut session) => {
                let before = session.state;
                if before.is_terminal() {
                    self.put_session(transfer_id, session);
                    assert(self@ =~= old(self)@);
                    return if before == TransferState::Cancelled {
                        Ok(())
                    } else {
                        Err(TransferError::CancelNotAllowed(before))
                    };
                }
                let moved = session.transition(TransferState::Cancelled);
                self.put_session(transfer_id, session);
                match moved {
                    Ok(()) => {
                        let _ = self.drop_retry(transfer_id);
                        self.emit(transfer_id, TransferEvent::Cancelled);
                        assert(self@ =~= old(self)@.cancelled(transfer_id)->Ok_0);
                        Ok(())
                    },
                    Err(error) => Err(TransferError::InvalidStateTransition(error)),
                }
            },
        }
    }

    /// Cancels a transfer whose attempt is over; of one that runs, says how.
    pub fn cancel(&mut self, transfer_id: TransferId) -> (result: Result<CancelStep, TransferError>)
        ensures
            match old(self)@.session(transfer_id) {
                None => result matches Err(error) && error@ == not_found() && final(self)@ == old(self)@,
                Some(session) => if session.state == TransferState::Cancelled {
                    result == Ok::<CancelStep, TransferError>(CancelStep::Done) && final(self)@
                        == old(self)@
                } else if session.state.terminal() {
                    result == Err::<CancelStep, TransferError>(
                        TransferError::CancelNotAllowed(session.state),
                    ) && final(self)@ == old(self)@
                } else if old(self)@.active.contains(transfer_id.bits()) {
                    result == Ok::<CancelStep, TransferError>(CancelStep::Signal) && final(self)@
                        == old(self)@
                } else {
                    result == Ok::<CancelStep, TransferError>(CancelStep::Done) && Ok::<
                        ManagerModel,
                        TransferErrorModel,
                    >(final(self)@) == old(self)@.cancelled(transfer_id)
                },
            },
            final(self)@ == old(self)@.cancelling(transfer_id).0,
            match old(self)@.cancelling(transfer_id).1 {
                Ok(step) => result == Ok::<CancelStep, TransferError>(step),
                Err(error) => result matches Err(found) && found@ == error,
            },
    {
        let state = match self.session(transfer_id) {
            None => {
                return Err(missing_session());
            },
            Some(session) => session.state,
        };
        match state {
            TransferState::Cancelled => Ok(CancelStep::Done),
            TransferState::Completed | TransferState::Failed => Err(
                TransferError::CancelNotAllowed(state),
            ),
            _ => {
                if self.active.contains(&transfer_id.as_uuid()) {
                    return Ok(CancelStep::Signal);
                }
                match self.cancel_untracked(transfer_id) {
                    Ok(()) => Ok(CancelStep::Done),
                    Err(error) => Err(error),
                }
            },
        }
    }

    pub fn update_progress(
        &mut self,
        transfer_id: TransferId,
        transferred: u64,
        total: u64,
        speed_bps: u64,
    ) -> (result: Result<(), TransferError>)
        ensures
            match old(self)@.progressed(transfer_id, transferred, total, speed_bps) {
                Ok(model) => result is Ok && final(self)@ == model,
                Err(error) => result matches Err(found) && found@ == error && final(self)@ == old(self)@,
            },
    {
        match self.take_session(transfer_id) {
            None => {
                assert(self@ =~= old(self)@);
                Err(missing_session())
            },
            Some(mut session) => {
                let state = session.state;
                match state {
                    TransferState::Transferring | TransferState::Resuming => {},
                    _ => {
                        self.put_session(transfer_id, session);
                        assert(self@ =~= old(self)@);
                        return Err(TransferError::ProgressNotAllowed(state));
                    },
                }
                let updated = session.update_progress_with_total(transferred, total, speed_bps);
                self.put_session(transfer_id, session);
                match updated {
                    Ok(()) => {
                        self.emit(
                            transfer_id,
                            TransferEvent::Progress { transferred, total, speed_bps },
                        );
                        assert(self@ =~= old(self)@.progressed(
                            transfer_id,
                            transferred,
                            total,
                            speed_bps,
                        )->Ok_0);
                        Ok(())
                    },
                    Err(error) => {
                        assert(self@ =~= old(self)@);
                        Err(TransferError::InvalidProgress(error))
                    },
                }
            },
        }
    }

    fn store_code(&mut self, transfer_id: TransferId, code: &str)
        ensures
            final(self)@ == old(self)@.with_code(transfer_id, code@),
    {
        match self.take_session(transfer_id) {
            None => {
                assert(self@ =~= old(self)@);
            },
            Some(mut session) => {
                session.set_code(code);
                self.put_session(transfer_id, session);
                self.emit(transfer_id, TransferEvent::CodeAvailable);
                assert(self@ =~= old(self)@.with_code(transfer_id, code@));
            },
        }
    }

    /// Takes over what the backend reports. Late progress is passed over; progress that cannot be
    /// is a fault of the backend.
    pub fn apply_backend_event(&mut self, transfer_id: TransferId, event: BackendEvent) -> (result:
        Result<(), BackendError>)
        ensures
            match old(self)@.reported(transfer_id, event@) {
                Ok(model) => result is Ok && final(self)@ == model,
                Err(error) => result == Err::<(), BackendError>(error) && final(self)@ == old(self)@,
            },
    {
        match event {
            BackendEvent::CodeGenerated { code } => {
                self.store_code(transfer_id, code.as_str());
                Ok(())
            },
            BackendEvent::MetadataReady => {
                let negotiating = match self.session(transfer_id) {
                    Some(session) => session.state == TransferState::Negotiating,
                    None => false,
                };
                if !negotiating {
                    return Ok(());
                }
                match self.advance(
                    transfer_id,
                    TransferState::Transferring,
                    TransferEvent::MetadataReady,
                ) {
                    Ok(()) => Ok(()),
                    Err(_) => Err(malformed_message()),
                }
            },
            BackendEvent::Progress { transferred, total, speed_bps } => {
                match self.update_progress(transfer_id, transferred, total, speed_bps) {
                    Ok(()) => Ok(()),
                    Err(TransferError::ProgressNotAllowed(_)) => Ok(()),
                    Err(_) => Err(malformed_message()),
                }
            },
            BackendEvent::CapabilityUnavailable { capability } => {
                let capability = match capability {
                    BackendCapability::Progress => TransferCapability::Progress,
                    BackendCapability::Pause => TransferCapability::Pause,
                    BackendCapability::Resume => TransferCapability::Resume,
                    BackendCapability::Direct | BackendCapability::Relay => {
                        return Ok(());
                    },
                };
                self.emit(transfer_id, TransferEvent::CapabilityUnavailable { capability });
                Ok(())
            },
        }
    }
}

/// What it takes to start an attempt, besides the request.
#[derive(Debug, Clone, Copy, PartialEq, Eq, Structural)]
pub struct AttemptStart {
    pub id: TransferId,
    pub created_at: u64,
}

impl AttemptStart {
    /// Now, under a fresh random identifier.
    pub fn fresh() -> (start: Self)
        ensures
            marked_random(start.id.bits()),
    {
        Self { id: TransferId::new(), created_at: now_seconds() }
    }
}

/// Why a transfer cannot be started with a manifest, if it cannot.
pub open spec fn manifest_refusal(manifest: Option<ManifestModel>) -> Option<TransferErrorModel> {
    if manifest matches Some(list) && list.fault() is Some {
        Some(TransferErrorModel::Backend("invalid sender manifest"@))
    } else {
        None
    }
}

fn move_manifest(manifest: &Option<TransferManifest>, id: TransferId) -> (moved: Option<
    TransferManifest,
>)
    ensures
        optional_manifest(moved) == moved_manifest(optional_manifest(*manifest), id),
{
    match manifest {
        Some(manifest) => Some(manifest.for_transfer(id)),
        None => None,
    }
}

impl TransferManager {
    /// Starts a transfer that sends what a request names.
    pub fn start_send(&mut self, request: SendRequest) -> (start: AttemptStart)
        ensures
            marked_random(start.id.bits()),
            final(self)@ == old(self)@.sending(start.id, start.created_at, request@, None),
    {
        let start = AttemptStart::fresh();
        self.start_send_attempt(start, request, None);
        start
    }

    /// Starts a transfer that sends the files of a manifest, which has to be valid.
    pub fn start_send_with_manifest(
        &mut self,
        request: SendRequest,
        manifest: Option<TransferManifest>,
    ) -> (result: Result<AttemptStart, TransferError>)
        ensures
            match manifest_refusal(optional_manifest(manifest)) {
                Some(error) => result matches Err(found) && found@ == error && final(self)@ == old(self)@,
                None => result matches Ok(start) && marked_random(start.id.bits()) && final(self)@
                    == old(self)@.sending(
                    start.id,
                    start.created_at,
                    request@,
                    optional_manifest(manifest),
                ),
            },
    {
        if let Some(manifest) = &manifest {
            if manifest.validate().is_err() {
                return Err(TransferError::Backend("invalid sender manifest".to_owned()));
            }
        }
        let start = AttemptStart::fresh();
        self.start_send_attempt(start, request, manifest);
        Ok(start)
    }

    /// The transfer is there from now on, and its attempt is under way.
    pub fn start_send_attempt(
        &mut self,
        start: AttemptStart,
        request: SendRequest,
        manifest: Option<TransferManifest>,
    )
        ensures
            final(self)@ == old(self)@.sending(
                start.id,
                start.created_at,
                request@,
                optional_manifest(manifest),
            ),
    {
        let mut session = TransferSession::created(
            start.id,
            start.created_at,
            Role::Sender,
            self.backend_name.as_str(),
        );
        if let Some(manifest) = &manifest {
            session.set_manifest(manifest.for_transfer(start.id));
        }
        let retry = RetryRequest::Send { request, manifest: move_manifest(&manifest, start.id) };
        self.create_active_session(start.id, session, retry);
        assert(self@ =~= old(self)@.sending(
            start.id,
            start.created_at,
            request@,
            optional_manifest(manifest),
        ));
    }

    fn create_active_session(
        &mut self,
        id: TransferId,
        session: TransferSession,
        retry: RetryRequest,
    )
        ensures
            final(self)@ == (ManagerModel {
                active: old(self)@.active.insert(id.bits()),
                retries: old(self)@.retries.insert(id.bits(), retry@),
                ..old(self)@
            }).with_session(id, session@).emitted(id, TransferEvent::Created),
    {
        self.active.insert(id.as_uuid());
        self.retries.insert(id.as_uuid(), retry);
        assert(self@.retries =~= old(self)@.retries.insert(id.bits(), retry@));
        self.put_session(id, session);
        self.emit(id, TransferEvent::Created);
    }

    /// Starts a transfer that receives to a staging directory.
    pub fn start_receive(&mut self, request: ReceiveRequest, staging: ReceiveStaging) -> (start:
        AttemptStart)
        ensures
            marked_random(start.id.bits()),
            final(self)@ == old(self)@.receiving(start.id, start.created_at, request@, staging@),
    {
        let start = AttemptStart::fresh();
        self.start_receive_attempt(start, request, staging);
        start
    }

    pub fn start_receive_attempt(
        &mut self,
        start: AttemptStart,
        request: ReceiveRequest,
        staging: ReceiveStaging,
    )
        ensures
            final(self)@ == old(self)@.receiving(start.id, start.created_at, request@, staging@),
    {
        let mut session = TransferSession::created(
            start.id,
            start.created_at,
            Role::Receiver,
            self.backend_name.as_str(),
        );
        session.set_code(request.code.as_str());
        self.create_active_session(start.id, session, RetryRequest::Receive { request, staging });
        self.emit(start.id, TransferEvent::CodeAvailable);
    }

    /// What the backend is asked for a transfer that receives: to write to the staging directory.
    pub fn backend_request(&self, transfer_id: TransferId) -> (request: Option<ReceiveRequest>)
        ensures
            match at(self@.retries, transfer_id) {
                Some(RetryModel::Receive { request: asked, staging }) => request matches Some(found)
                    && found@ == (ReceiveModel { output_directory: staging.path, ..asked }),
                _ => request is None,
            },
    {
        match self.retries.get(&transfer_id.as_uuid()) {
            Some(RetryRequest::Receive { request, staging }) => Some(
                request.received_to(staging.path()),
            ),
            _ => None,
        }
    }

    /// What to save of a transfer, so that it can be recovered.
    pub fn recovery_state(&self, transfer_id: TransferId) -> (state: Option<ResumeState>)
        ensures
            optional_state(state) == self@.recovery(transfer_id),
    {
        if !self.keeps_recovery {
            return None;
        }
        let session = match self.session(transfer_id) {
            Some(session) => session,
            None => {
                return None;
            },
        };
        let retry = match self.retries.get(&transfer_id.as_uuid()) {
            Some(retry) => retry,
            None => {
                return None;
            },
        };
        let capabilities = ResumeCapabilities {
            pause: self.info.capabilities.supports(BackendCapability::Pause),
            resume: self.info.capabilities.supports(BackendCapability::Resume),
        };
        let backend_version: Option<String> = match self.info.version {
            Some(version) => Some(version.to_owned()),
            None => None,
        };
        let mut state = ResumeState {
            schema_version: RESUME_SCHEMA_VERSION,
            transfer_id,
            backend: session.backend.as_str().to_owned(),
            backend_version,
            capabilities,
            request: ResumeRequest::Send { source_paths: Vec::new() },
            manifest: None,
            file_id: 0,
            chunk_size: DEFAULT_RESUME_CHUNK_SIZE,
            file_size: 0,
            completed_chunks: Vec::new(),
            file_digest: None,
            temp_file_path: None,
        };
        match retry {
            RetryRequest::Send { request, manifest } => {
                state.request = ResumeRequest::Send { source_paths: copy_texts(&request.paths) };
                if let Some(manifest) = manifest {
                    if manifest.files.len() > 0 {
                        let file = &manifest.files[0];
                        assert(manifest@.files[0] == file@);
                        state.file_id = file.file_id;
                        state.file_size = file.size;
                        state.file_digest = copy_optional(&file.digest);
                    }
                    state.manifest = Some(manifest.for_transfer(manifest.transfer_id));
                }
            },
            RetryRequest::Receive { request, staging } => {
                state.request =
                ResumeRequest::Receive {
                    output_directory: request.output_directory.as_str().to_owned(),
                };
                state.temp_file_path = Some(staging.relative_path().to_owned());
            },
        }
        assert(state@ =~= self@.recovery(transfer_id)->Some_0);
        Some(state)
    }

    fn cleanup_attempt(
        &mut self,
        transfer_id: TransferId,
        keep: bool,
        persist: Option<ResumeState>,
    ) -> (end: AttemptEnd)
        ensures
            (final(self)@, end@) == old(self)@.ended(transfer_id, keep, optional_state(persist)),
    {
        let mut clean_staging: Option<ReceiveStaging> = None;
        if !keep {
            if let Some(RetryRequest::Receive { staging, .. }) = self.drop_retry(transfer_id) {
                clean_staging = Some(staging);
            }
        }
        self.active.remove(&transfer_id.as_uuid());
        let end = AttemptEnd {
            persist,
            clean_staging,
            remove_metadata: !keep && self.keeps_recovery,
        };
        assert(self@ =~= old(self)@.ended(transfer_id, keep, optional_state(persist)).0);
        end
    }

    fn complete(&mut self, transfer_id: TransferId, destination: Option<String>) -> (end:
        AttemptEnd)
        ensures
            (final(self)@, end@) == old(self)@.completing(transfer_id, optional_text(destination)),
    {
        match self.advance(transfer_id, TransferState::Completed, TransferEvent::Completed) {
            Ok(()) => {
                if let Some(destination) = destination {
                    self.destinations.insert(transfer_id.as_uuid(), destination);
                    assert(self@.destinations =~= old(self)@.destinations.insert(
                        transfer_id.bits(),
                        destination@,
                    ));
                }
            },
            Err(_) => {
                self.destinations.remove(&transfer_id.as_uuid());
                assert(self@.destinations =~= old(self)@.destinations.remove(transfer_id.bits()));
            },
        }
        self.cleanup_attempt(transfer_id, false, None)
    }

    fn is_retryable(&self, transfer_id: TransferId) -> (retryable: bool)
        ensures
            retryable == self@.may_retry(transfer_id),
    {
        match self.session(transfer_id) {
            Some(session) => match session.failure_kind {
                Some(kind) => kind.is_retryable(),
                None => false,
            },
            None => false,
        }
    }

    /// Ends an attempt, as far as that can be done without publishing what it received.
    pub fn finish_attempt(
        &mut self,
        transfer_id: TransferId,
        result: Result<(), BackendError>,
        cancelled: bool,
    ) -> (step: FinishStep)
        ensures
            (final(self)@, step@) == old(self)@.finished(transfer_id, result, cancelled),
    {
        let stopped = match &result {
            Err(BackendError::Cancelled) => true,
            _ => cancelled,
        };
        if stopped {
            let _ = self.cancel_untracked(transfer_id);
            return FinishStep::Ended(self.cleanup_attempt(transfer_id, false, None));
        }
        match result {
            Ok(()) => {
                let receives = self.receive_staging(transfer_id).is_some();
                match self.advance(transfer_id, TransferState::Verifying, TransferEvent::Verifying) {
                    Err(_) => {
                        let error = malformed_message();
                        let message = error.safe_message();
                        let _ = self.fail_with(transfer_id, message.as_str(), error.failure_kind());
                        FinishStep::Ended(self.cleanup_attempt(transfer_id, false, None))
                    },
                    Ok(()) => if receives {
                        FinishStep::Finalize
                    } else {
                        FinishStep::Ended(self.complete(transfer_id, None))
                    },
                }
            },
            Err(error) => {
                let message = error.safe_message();
                let _ = self.fail_with(transfer_id, message.as_str(), error.failure_kind());
                let end = if self.is_retryable(transfer_id) {
                    let persist = self.recovery_state(transfer_id);
                    self.cleanup_attempt(transfer_id, true, persist)
                } else {
                    self.cleanup_attempt(transfer_id, false, None)
                };
                FinishStep::Ended(end)
            },
        }
    }

    /// Ends an attempt whose received output was published, or could not be.
    pub fn finish_receive(
        &mut self,
        transfer_id: TransferId,
        outcome: Result<ReceiveFinalizeReport, ReceiveStagingError>,
    ) -> (end: AttemptEnd)
        ensures
            (final(self)@, end@) == old(self)@.published(transfer_id, outcome),
    {
        match outcome {
            Err(error) => {
                let _ = self.fail_with(
                    transfer_id,
                    safe_receive_staging_error(error),
                    receive_staging_failure_kind(error),
                );
                self.cleanup_attempt(transfer_id, false, None)
            },
            Ok(_) => {
                let destination = match self.receive_staging(transfer_id) {
                    Some(staging) => Some(staging.destination().to_owned()),
                    None => None,
                };
                self.complete(transfer_id, destination)
            },
        }
    }

    fn finish_cancelled(&mut self, transfer_id: TransferId) -> (end: AttemptEnd)
        ensures
            (final(self)@, FinishModel::Ended(end@)) == old(self)@.finished(
                transfer_id,
                Err(BackendError::Cancelled),
                true,
            ),
    {
        let _ = self.cancel_untracked(transfer_id);
        self.cleanup_attempt(transfer_id, false, None)
    }

    /// Before the backend is called for a transfer that sends.
    pub fn contact_sender(&mut self, transfer_id: TransferId, cancelled: bool) -> (result: Result<
        AttemptStep,
        TransferError,
    >)
        ensures
            if cancelled {
                &&& result matches Ok(step) && step@ is Ended
                &&& (final(self)@, FinishModel::Ended(result->Ok_0@->Ended_0))
                    == old(self)@.finished(transfer_id, Err(BackendError::Cancelled), true)
            } else {
                match old(self)@.advanced(
                    transfer_id,
                    TransferState::Connecting,
                    TransferEvent::Connecting,
                ) {
                    Ok(next) => result matches Ok(step) && step@ == AttemptModel::Contact
                        && final(self)@ == next,
                    Err(error) => result matches Err(found) && found@ == error && final(self)@
                        == old(self)@,
                }
            },
            final(self)@ == old(self)@.contacting_sender(transfer_id, cancelled).0,
            match old(self)@.contacting_sender(transfer_id, cancelled).1 {
                Ok(step) => result matches Ok(found) && found@ == step,
                Err(error) => result matches Err(found) && found@ == error,
            },
    {
        if cancelled {
            return Ok(AttemptStep::Ended(self.finish_cancelled(transfer_id)));
        }
        match self.advance(transfer_id, TransferState::Connecting, TransferEvent::Connecting) {
            Ok(()) => Ok(AttemptStep::Contact),
            Err(error) => Err(error),
        }
    }

    /// Before the backend is called for a transfer that receives. One that cannot start has failed.
    pub fn contact_receiver(&mut self, transfer_id: TransferId, cancelled: bool) -> (step:
        AttemptStep)
        ensures
            if cancelled {
                &&& step@ is Ended
                &&& (final(self)@, FinishModel::Ended(step@->Ended_0)) == old(self)@.finished(
                    transfer_id,
                    Err(BackendError::Cancelled),
                    true,
                )
            } else {
                match old(self)@.advanced(
                    transfer_id,
                    TransferState::Connecting,
                    TransferEvent::Connecting,
                ) {
                    Ok(next) => step@ == AttemptModel::Contact && final(self)@ == next,
                    Err(_) => {
                        &&& step@ is Ended
                        &&& (final(self)@, step@->Ended_0) == old(self)@.or_unchanged(
                            old(self)@.failed_with(
                                transfer_id,
                                "receive could not start"@,
                                TransferFailureKind::Unknown,
                            ),
                        ).ended(transfer_id, false, None)
                    },
                }
            },
            (final(self)@, step@) == old(self)@.contacting_receiver(transfer_id, cancelled),
    {
        if cancelled {
            return AttemptStep::Ended(self.finish_cancelled(transfer_id));
        }
        match self.advance(transfer_id, TransferState::Connecting, TransferEvent::Connecting) {
            Ok(()) => AttemptStep::Contact,
            Err(_) => {
                let _ = self.fail_with(
                    transfer_id,
                    "receive could not start",
                    TransferFailureKind::Unknown,
                );
                AttemptStep::Ended(self.cleanup_attempt(transfer_id, false, None))
            },
        }
    }

    /// After the backend was called.
    pub fn contacted(
        &mut self,
        transfer_id: TransferId,
        outcome: Result<(), BackendError>,
        cancelled: bool,
    ) -> (step: AttemptStep)
        ensures
            match outcome {
                Ok(_) => final(self)@ == old(self)@ && step@ == (if cancelled {
                    AttemptModel::CancelHandle
                } else {
                    AttemptModel::Establish(EstablishStep::Connected)
                }),
                Err(_) => {
                    &&& step@ is Ended
                    &&& (final(self)@, FinishModel::Ended(step@->Ended_0)) == old(self)@.finished(
                        transfer_id,
                        outcome,
                        cancelled,
                    )
                },
            },
            (final(self)@, step@) == old(self)@.answered(transfer_id, outcome, cancelled),
    {
        match outcome {
            Ok(()) => if cancelled {
                AttemptStep::CancelHandle
            } else {
                AttemptStep::Establish(EstablishStep::Connected)
            },
            Err(error) => match self.finish_attempt(transfer_id, Err(error), cancelled) {
                FinishStep::Ended(end) => AttemptStep::Ended(end),
                FinishStep::Finalize => AttemptStep::Monitor,
            },
        }
    }

    /// Ends an attempt after what the backend did was cancelled.
    pub fn handle_cancelled(&mut self, transfer_id: TransferId) -> (end: AttemptEnd)
        ensures
            (final(self)@, FinishModel::Ended(end@)) == old(self)@.finished(
                transfer_id,
                Err(BackendError::Cancelled),
                true,
            ),
    {
        self.finish_cancelled(transfer_id)
    }

    /// One step nearer to a transfer that runs.
    pub fn establish(
        &mut self,
        transfer_id: TransferId,
        step: EstablishStep,
        cancelled: bool,
    ) -> (result: Result<AttemptStep, TransferError>)
        ensures
            if cancelled {
                result matches Ok(next) && next@ == AttemptModel::CancelHandle && final(self)@
                    == old(self)@
            } else {
                match old(self)@.advanced(transfer_id, step.state_spec(), step.event_spec()) {
                    Ok(model) => result matches Ok(next) && next@ == step.next_spec()
                        && final(self)@ == model,
                    Err(error) => result matches Err(found) && found@ == error && final(self)@
                        == old(self)@,
                }
            },
            final(self)@ == old(self)@.establishing(transfer_id, step, cancelled).0,
            match old(self)@.establishing(transfer_id, step, cancelled).1 {
                Ok(next) => result matches Ok(found) && found@ == next,
                Err(error) => result matches Err(found) && found@ == error,
            },
    {
        if cancelled {
            return Ok(AttemptStep::CancelHandle);
        }
        match self.advance(transfer_id, step.state(), step.event()) {
            Ok(()) => Ok(step.next()),
            Err(error) => Err(error),
        }
    }

    /// Whether a transfer may be tried again; where it received, also where to.
    pub fn check_retry(&self, transfer_id: TransferId) -> (result: Result<
        Option<String>,
        TransferError,
    >)
        ensures
            match self@.retry_fault(transfer_id) {
                Some(error) => result matches Err(found) && found@ == error,
                None => result matches Ok(directory) && optional_text(directory) == (match at(
                    self@.retries,
                    transfer_id,
                )->Some_0 {
                    RetryModel::Receive { request, .. } => Some(request.output_directory),
                    RetryModel::Send { .. } => None,
                }),
            },
    {
        let state = match self.session(transfer_id) {
            None => {
                return Err(missing_session());
            },
            Some(session) => session.state,
        };
        if state != TransferState::Failed || !self.is_retryable(transfer_id) {
            return Err(TransferError::RetryNotAllowed(state));
        }
        match self.retries.get(&transfer_id.as_uuid()) {
            None => Err(TransferError::RetryNotAllowed(state)),
            Some(RetryRequest::Receive { request, .. }) => Ok(
                Some(request.output_directory.as_str().to_owned()),
            ),
            Some(RetryRequest::Send { .. }) => Ok(None),
        }
    }

    /// Takes what a failed transfer was asked to do, to try it again.
    pub fn take_retry(&mut self, transfer_id: TransferId) -> (result: Result<
        RetryRequest,
        TransferError,
    >)
        ensures
            match old(self)@.retry_fault(transfer_id) {
                Some(error) => result matches Err(found) && found@ == error && final(self)@ == old(self)@,
                None => result matches Ok(retry) && at(old(self)@.retries, transfer_id) == Some(
                    retry@,
                ) && final(self)@ == (ManagerModel {
                    retries: old(self)@.retries.remove(transfer_id.bits()),
                    ..old(self)@
                }),
            },
    {
        match self.check_retry(transfer_id) {
            Err(error) => Err(error),
            Ok(_) => match self.drop_retry(transfer_id) {
                Some(retry) => Ok(retry),
                None => Err(missing_session()),
            },
        }
    }

    /// Puts back what was taken, where trying again did not start.
    pub fn restore_retry(&mut self, transfer_id: TransferId, retry: RetryRequest)
        ensures
            final(self)@ == (ManagerModel {
                retries: old(self)@.retries.insert(transfer_id.bits(), retry@),
                ..old(self)@
            }),
    {
        self.retries.insert(transfer_id.as_uuid(), retry);
        assert(self@.retries =~= old(self)@.retries.insert(transfer_id.bits(), retry@));
    }

    /// What to start in place of a transfer that was interrupted.
    pub fn recover(
        &self,
        state: &ResumeState,
        receive_code: &Option<String>,
        receive_output_directory: &Option<String>,
    ) -> (result: Result<RecoveryPlan, TransferError>)
        ensures
            match self@.recovered(
                state@,
                optional_text(*receive_code),
                optional_text(*receive_output_directory),
            ) {
                Ok(plan) => result matches Ok(found) && found@ == plan,
                Err(error) => result matches Err(found) && found@ == error,
            },
    {
        if state.validate().is_err() {
            return Err(TransferError::Backend("invalid resume metadata".to_owned()));
        }
        let same_version = match (&state.backend_version, self.info.version) {
            (Some(found), Some(version)) => same_text(found.as_str(), version),
            (None, None) => true,
            _ => false,
        };
        if !same_text(state.backend.as_str(), self.backend_name.as_str()) || !same_version {
            return Err(TransferError::Backend("resume backend is incompatible".to_owned()));
        }
        if state.capabilities.resume != self.info.capabilities.supports(BackendCapability::Resume) {
            return Err(TransferError::CapabilityUnavailable(TransferCapability::Resume));
        }
        match &state.request {
            ResumeRequest::Send { source_paths } => {
                match SendRequest::new(copy_texts(source_paths)) {
                    Err(_) => Err(TransferError::Backend("invalid resume request".to_owned())),
                    Ok(request) => {
                        let manifest = match &state.manifest {
                            Some(manifest) => Some(manifest.for_transfer(manifest.transfer_id)),
                            None => None,
                        };
                        Ok(RecoveryPlan::Send { request, manifest })
                    },
                }
            },
            ResumeRequest::Receive { output_directory } => match receive_code {
                None => Err(
                    TransferError::Backend("receive recovery requires transfer code".to_owned()),
                ),
                Some(code) => {
                    let directory = match receive_output_directory {
                        Some(directory) => directory.as_str(),
                        None => output_directory.as_str(),
                    };
                    match ReceiveRequest::new(code.as_str(), directory) {
                        Err(_) => Err(TransferError::Backend("invalid resume request".to_owned())),
                        Ok(request) => Ok(RecoveryPlan::Receive { request }),
                    }
                },
            },
        }
    }

    pub open spec fn control_error(
        model: ManagerModel,
        id: TransferId,
        capability: TransferCapability,
    ) -> TransferErrorModel {
        if !model.info.capabilities.has(needed_capability(capability)) {
            TransferErrorModel::CapabilityUnavailable(capability)
        } else if model.session(id) is None {
            not_found()
        } else {
            TransferErrorModel::Backend("backend control handshake is not implemented"@)
        }
    }

    fn require_capability(&self, transfer_id: TransferId, capability: TransferCapability) -> (error:
        TransferError)
        ensures
            error@ == Self::control_error(self@, transfer_id, capability),
    {
        let needed = match capability {
            TransferCapability::Progress => BackendCapability::Progress,
            TransferCapability::Pause => BackendCapability::Pause,
            TransferCapability::Resume => BackendCapability::Resume,
        };
        if !self.info.capabilities.supports(needed) {
            return TransferError::CapabilityUnavailable(capability);
        }
        match self.session(transfer_id) {
            None => missing_session(),
            Some(_) => TransferError::Backend(
                "backend control handshake is not implemented".to_owned(),
            ),
        }
    }

    /// Pausing is refused: no backend can be told to.
    pub fn pause(&self, transfer_id: TransferId) -> (result: Result<(), TransferError>)
        ensures
            result matches Err(error) && error@ == Self::control_error(
                self@,
                transfer_id,
                TransferCapability::Pause,
            ),
    {
        Err(self.require_capability(transfer_id, TransferCapability::Pause))
    }

    /// Resuming is refused: no backend can be told to.
    pub fn resume(&self, transfer_id: TransferId) -> (result: Result<(), TransferError>)
        ensures
            result matches Err(error) && error@ == Self::control_error(
                self@,
                transfer_id,
                TransferCapability::Resume,
            ),
    {
        Err(self.require_capability(transfer_id, TransferCapability::Resume))
    }
}

/// What an attempt came to: a report that broke the protocol outweighs what the backend says.
pub fn monitored_outcome(
    update_error: Option<BackendError>,
    result: Result<(), BackendError>,
) -> (outcome: Result<(), BackendError>)
    ensures
        outcome == (match update_error {
            Some(error) => Err(error),
            None => result,
        }),
{
    match update_error {
        Some(error) => Err(error),
        None => result,
    }
}

} // verus!
