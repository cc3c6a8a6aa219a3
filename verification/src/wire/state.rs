//! The order in which the messages of one connection may come.
use vstd::prelude::*;
use crate::wire::frame::{FrameModel, FramePayload, PayloadModel, WireFrame};
use crate::wire::message::{MessageModel, WireMessage};
use crate::wire::types::{AuthMessageKind, CapabilityOffer, ProtocolPhase, WireError, WireId};

verus! {

#[derive(Clone, PartialEq, Eq)]
pub struct WireState {
    phase: ProtocolPhase,
    last_sequence: Option<u64>,
    hello_seen: bool,
    hello_ack_seen: bool,
    required_capabilities: Vec<u16>,
    auth_started: bool,
    auth_responded: bool,
    auth_confirmed: bool,
    session_id: Option<WireId>,
    session_started: bool,
    session_accepted: bool,
    manifest_offered: bool,
    manifest_accepted: bool,
    paused: bool,
}

/// What has happened on a connection.
pub struct StateModel {
    pub phase: ProtocolPhase,
    pub last_sequence: Option<u64>,
    pub hello_seen: bool,
    pub hello_ack_seen: bool,
    pub required_capabilities: Seq<u16>,
    pub auth_started: bool,
    pub auth_responded: bool,
    pub auth_confirmed: bool,
    pub session_id: Option<Seq<u8>>,
    pub session_started: bool,
    pub session_accepted: bool,
    pub manifest_offered: bool,
    pub manifest_accepted: bool,
    pub paused: bool,
}

impl View for WireState {
    type V = StateModel;

    closed spec fn view(&self) -> StateModel {
        StateModel {
            phase: self.phase,
            last_sequence: self.last_sequence,
            hello_seen: self.hello_seen,
            hello_ack_seen: self.hello_ack_seen,
            required_capabilities: self.required_capabilities@,
            auth_started: self.auth_started,
            auth_responded: self.auth_responded,
            auth_confirmed: self.auth_confirmed,
            session_id: match self.session_id {
                Some(id) => Some(id@),
                None => None,
            },
            session_started: self.session_started,
            session_accepted: self.session_accepted,
            manifest_offered: self.manifest_offered,
            manifest_accepted: self.manifest_accepted,
            paused: self.paused,
        }
    }
}

/// The numbers of the capabilities that an offer requires, in order.
pub open spec fn required_ids(offers: Seq<CapabilityOffer>) -> Seq<u16>
    decreases offers.len(),
{
    if offers.len() == 0 {
        Seq::empty()
    } else {
        let earlier = required_ids(offers.drop_last());
        if offers.last().required {
            earlier.push(offers.last().id)
        } else {
            earlier
        }
    }
}

pub open spec fn acknowledges(offers: Seq<CapabilityOffer>, id: u16) -> bool {
    exists|k: int| 0 <= k < offers.len() && (#[trigger] offers[k]).id == id
}

/// The first required capability that is not acknowledged.
pub open spec fn first_missing(required: Seq<u16>, offers: Seq<CapabilityOffer>) -> Option<u16>
    decreases required.len(),
{
    if required.len() == 0 {
        None
    } else if !acknowledges(offers, required[0]) {
        Some(required[0])
    } else {
        first_missing(required.skip(1), offers)
    }
}

impl StateModel {
    /// A connection on which nothing has happened yet.
    pub open spec fn initial() -> StateModel {
        StateModel {
            phase: ProtocolPhase::PreAuthentication,
            last_sequence: None,
            hello_seen: false,
            hello_ack_seen: false,
            required_capabilities: Seq::empty(),
            auth_started: false,
            auth_responded: false,
            auth_confirmed: false,
            session_id: None,
            session_started: false,
            session_accepted: false,
            manifest_offered: false,
            manifest_accepted: false,
            paused: false,
        }
    }

    pub open spec fn refusal(self, message: MessageModel) -> WireError {
        WireError::InvalidState { phase: self.phase, message_type: message.message_type() }
    }

    /// Guards a step by the session it belongs to.
    pub open spec fn in_session(
        self,
        session_id: Seq<u8>,
        step: Result<StateModel, WireError>,
    ) -> Result<StateModel, WireError> {
        if self.session_id == Some(session_id) {
            step
        } else {
            Err(WireError::InvalidSession)
        }
    }

    /// The step, where the message is allowed at all.
    pub open spec fn if_allowed(
        self,
        allowed: bool,
        message: MessageModel,
        step: Result<StateModel, WireError>,
    ) -> Result<StateModel, WireError> {
        if allowed {
            step
        } else {
            Err(self.refusal(message))
        }
    }

    /// The state after a message, or the reason why it is refused.
    #[verifier::opaque]
    pub open spec fn accepting(self, message: MessageModel) -> Result<StateModel, WireError> {
        if self.phase == ProtocolPhase::Closed {
            Err(self.refusal(message))
        } else {
            match message {
                MessageModel::Hello { capabilities } => if self.phase
                    != ProtocolPhase::PreAuthentication || self.hello_seen {
                    Err(WireError::DuplicateNegotiation)
                } else {
                    Ok(
                        StateModel {
                            required_capabilities: required_ids(capabilities),
                            hello_seen: true,
                            phase: ProtocolPhase::Negotiating,
                            ..self
                        },
                    )
                },
                MessageModel::HelloAck { capabilities, .. } => self.if_allowed(
                    self.phase == ProtocolPhase::Negotiating && self.hello_seen
                        && !self.hello_ack_seen,
                    message,
                    match first_missing(self.required_capabilities, capabilities) {
                        Some(id) => Err(WireError::MissingRequiredCapability { id }),
                        None => Ok(
                            StateModel {
                                hello_ack_seen: true,
                                phase: ProtocolPhase::Authenticating,
                                ..self
                            },
                        ),
                    },
                ),
                MessageModel::Auth { kind, .. } => self.if_allowed(
                    self.phase == ProtocolPhase::Authenticating && match kind {
                        AuthMessageKind::Init => !self.auth_started,
                        AuthMessageKind::Response => self.auth_started && !self.auth_responded,
                        AuthMessageKind::Confirm => self.auth_responded,
                    },
                    message,
                    Ok(
                        match kind {
                            AuthMessageKind::Init => StateModel { auth_started: true, ..self },
                            AuthMessageKind::Response => StateModel {
                                auth_responded: true,
                                ..self
                            },
                            AuthMessageKind::Confirm => StateModel {
                                auth_confirmed: true,
                                phase: ProtocolPhase::Authenticated,
                                ..self
                            },
                        },
                    ),
                ),
                MessageModel::SessionStart { session_id, .. } => self.if_allowed(
                    self.phase == ProtocolPhase::Authenticated && self.auth_confirmed
                        && !self.session_started,
                    message,
                    Ok(
                        StateModel {
                            session_started: true,
                            session_id: Some(session_id),
                            ..self
                        },
                    ),
                ),
                MessageModel::SessionAccept { session_id } => self.if_allowed(
                    self.phase == ProtocolPhase::Authenticated && self.session_started,
                    message,
                    self.in_session(
                        session_id,
                        self.if_allowed(
                            !self.session_accepted,
                            message,
                            Ok(StateModel { session_accepted: true, ..self }),
                        ),
                    ),
                ),
                MessageModel::ManifestOffer { session_id, .. } => self.if_allowed(
                    self.phase == ProtocolPhase::Authenticated && self.session_accepted,
                    message,
                    self.in_session(
                        session_id,
                        self.if_allowed(
                            !self.manifest_offered,
                            message,
                            Ok(StateModel { manifest_offered: true, ..self }),
                        ),
                    ),
                ),
                MessageModel::ManifestAccept { session_id } => self.if_allowed(
                    self.phase == ProtocolPhase::Authenticated && self.manifest_offered,
                    message,
                    self.in_session(
                        session_id,
                        self.if_allowed(
                            !self.manifest_accepted,
                            message,
                            Ok(
                                StateModel {
                                    manifest_accepted: true,
                                    phase: ProtocolPhase::Transferring,
                                    ..self
                                },
                            ),
                        ),
                    ),
                ),
                MessageModel::ChunkRequest { session_id, .. }
                | MessageModel::ChunkData { session_id, .. }
                | MessageModel::ChunkAck { session_id, .. } => self.in_session(
                    session_id,
                    self.if_allowed(
                        self.phase == ProtocolPhase::Transferring && !self.paused,
                        message,
                        Ok(self),
                    ),
                ),
                MessageModel::Pause { session_id } => self.in_session(
                    session_id,
                    self.if_allowed(
                        self.phase == ProtocolPhase::Transferring && !self.paused,
                        message,
                        Ok(StateModel { paused: true, ..self }),
                    ),
                ),
                MessageModel::Resume { session_id } => self.in_session(
                    session_id,
                    self.if_allowed(
                        self.phase == ProtocolPhase::Transferring && self.paused,
                        message,
                        Ok(StateModel { paused: false, ..self }),
                    ),
                ),
                MessageModel::Cancel { session_id, .. } => self.in_session(
                    session_id,
                    Ok(StateModel { phase: ProtocolPhase::Closing, ..self }),
                ),
                MessageModel::Close { session_id, .. } => self.in_session(
                    session_id,
                    Ok(StateModel { phase: ProtocolPhase::Closed, ..self }),
                ),
                MessageModel::Error { .. } => Ok(self),
            }
        }
    }

    /// The state after a frame: its sequence number must be past the last one accepted.
    pub open spec fn accepting_frame(self, frame: FrameModel) -> Result<StateModel, WireError> {
        let sequence = frame.header.sequence;
        if self.last_sequence is Some && sequence <= self.last_sequence->Some_0 {
            Err(WireError::InvalidSequence { sequence, previous: self.last_sequence->Some_0 })
        } else {
            match frame.payload {
                PayloadModel::Message(message) => match self.accepting(message) {
                    Ok(next) => Ok(StateModel { last_sequence: Some(sequence), ..next }),
                    Err(error) => Err(error),
                },
                PayloadModel::UnknownOptional { .. } => Ok(
                    StateModel { last_sequence: Some(sequence), ..self },
                ),
            }
        }
    }
}

impl Default for WireState {
    fn default() -> (state: Self)
        ensures
            state@ == StateModel::initial(),
    {
        Self {
            phase: ProtocolPhase::PreAuthentication,
            last_sequence: None,
            hello_seen: false,
            hello_ack_seen: false,
            required_capabilities: Vec::new(),
            auth_started: false,
            auth_responded: false,
            auth_confirmed: false,
            session_id: None,
            session_started: false,
            session_accepted: false,
            manifest_offered: false,
            manifest_accepted: false,
            paused: false,
        }
    }
}

impl WireState {
    pub fn phase(&self) -> (phase: ProtocolPhase)
        ensures
            phase == self@.phase,
    {
        self.phase
    }

    pub fn paused(&self) -> (paused: bool)
        ensures
            paused == self@.paused,
    {
        self.paused
    }

    /// Takes the next frame; a frame that is refused changes nothing.
    pub fn accept_frame(&mut self, frame: &WireFrame) -> (result: Result<(), WireError>)
        ensures
            match old(self)@.accepting_frame(frame@) {
                Ok(next) => result is Ok && final(self)@ == next,
                Err(error) => result == Err::<(), WireError>(error) && final(self)@ == old(self)@,
            },
    {
        let sequence: u64 = frame.header.sequence;
        match self.last_sequence {
            Some(previous) => {
                if sequence <= previous {
                    return Err(WireError::InvalidSequence { sequence, previous });
                }
            },
            None => {},
        }
        match &frame.payload {
            FramePayload::Message(message) => {
                match self.accept(message) {
                    Ok(()) => {
                        self.last_sequence = Some(sequence);
                        Ok(())
                    },
                    Err(error) => Err(error),
                }
            },
            FramePayload::UnknownOptional { .. } => {
                self.last_sequence = Some(sequence);
                Ok(())
            },
        }
    }

    /// Takes the next message; a message that is refused changes nothing.
    pub fn accept(&mut self, message: &WireMessage) -> (result: Result<(), WireError>)
        ensures
            match old(self)@.accepting(message@) {
                Ok(next) => result is Ok && final(self)@ == next,
                Err(error) => result == Err::<(), WireError>(error) && final(self)@ == old(self)@,
            },
    {
        reveal(StateModel::accepting);
        reveal(WireMessage::model);
        if self.phase == ProtocolPhase::Closed {
            return Err(self.invalid(message));
        }
        match message {
            WireMessage::Hello { .. } | WireMessage::HelloAck { .. } | WireMessage::Auth {
                ..
            } => self.accept_opening(message),
            WireMessage::SessionStart { .. }
            | WireMessage::SessionAccept { .. }
            | WireMessage::ManifestOffer { .. }
            | WireMessage::ManifestAccept { .. } => self.accept_setup(message),
            WireMessage::ChunkRequest { session_id, .. }
            | WireMessage::ChunkData { session_id, .. }
            | WireMessage::ChunkAck { session_id, .. }
            | WireMessage::Pause { session_id }
            | WireMessage::Resume { session_id }
            | WireMessage::Cancel { session_id, .. }
            | WireMessage::Close { session_id, .. } => {
                self.require_session(*session_id)?;
                self.accept_session_message(message)
            },
            WireMessage::Error { .. } => Ok(()),
        }
    }

    /// Negotiation and authentication.
    fn accept_opening(&mut self, message: &WireMessage) -> (result: Result<(), WireError>)
        requires
            old(self)@.phase != ProtocolPhase::Closed,
            message@ is Hello || message@ is HelloAck || message@ is Auth,
        ensures
            match old(self)@.accepting(message@) {
                Ok(next) => result is Ok && final(self)@ == next,
                Err(error) => result == Err::<(), WireError>(error) && final(self)@ == old(self)@,
            },
    {
        reveal(StateModel::accepting);
        reveal(WireMessage::model);
        match message {
            WireMessage::Hello { capabilities } => {
                if self.phase != ProtocolPhase::PreAuthentication || self.hello_seen {
                    return Err(WireError::DuplicateNegotiation);
                }
                self.required_capabilities = collect_required(capabilities);
                self.hello_seen = true;
                self.phase = ProtocolPhase::Negotiating;
            },
            WireMessage::HelloAck { capabilities, .. } => {
                if self.phase != ProtocolPhase::Negotiating || !self.hello_seen
                    || self.hello_ack_seen {
                    return Err(self.invalid(message));
                }
                self.require_capabilities(capabilities)?;
                self.hello_ack_seen = true;
                self.phase = ProtocolPhase::Authenticating;
            },
            WireMessage::Auth { kind, .. } => {
                if self.phase != ProtocolPhase::Authenticating {
                    return Err(self.invalid(message));
                }
                match kind {
                    AuthMessageKind::Init => {
                        if self.auth_started {
                            return Err(self.invalid(message));
                        }
                        self.auth_started = true;
                    },
                    AuthMessageKind::Response => {
                        if !self.auth_started || self.auth_responded {
                            return Err(self.invalid(message));
                        }
                        self.auth_responded = true;
                    },
                    AuthMessageKind::Confirm => {
                        if !self.auth_responded {
                            return Err(self.invalid(message));
                        }
                        self.auth_confirmed = true;
                        self.phase = ProtocolPhase::Authenticated;
                    },
                }
            },
            _ => {},
        }
        Ok(())
    }

    /// Agreement on a session and a manifest.
    fn accept_setup(&mut self, message: &WireMessage) -> (result: Result<(), WireError>)
        requires
            old(self)@.phase != ProtocolPhase::Closed,
            message@ is SessionStart || message@ is SessionAccept || message@ is ManifestOffer
                || message@ is ManifestAccept,
        ensures
            match old(self)@.accepting(message@) {
                Ok(next) => result is Ok && final(self)@ == next,
                Err(error) => result == Err::<(), WireError>(error) && final(self)@ == old(self)@,
            },
    {
        reveal(StateModel::accepting);
        reveal(WireMessage::model);
        match message {
            WireMessage::SessionStart { session_id, .. } => {
                if self.phase != ProtocolPhase::Authenticated || !self.auth_confirmed {
                    return Err(self.invalid(message));
                }
                if self.session_started {
                    return Err(self.invalid(message));
                }
                self.session_started = true;
                self.session_id = Some(*session_id);
            },
            WireMessage::SessionAccept { session_id } => {
                if self.phase != ProtocolPhase::Authenticated || !self.session_started {
                    return Err(self.invalid(message));
                }
                self.require_session(*session_id)?;
                if self.session_accepted {
                    return Err(self.invalid(message));
                }
                self.session_accepted = true;
            },
            WireMessage::ManifestOffer { session_id, .. } => {
                if self.phase != ProtocolPhase::Authenticated || !self.session_accepted {
                    return Err(self.invalid(message));
                }
                self.require_session(*session_id)?;
                if self.manifest_offered {
                    return Err(self.invalid(message));
                }
                self.manifest_offered = true;
            },
            WireMessage::ManifestAccept { session_id } => {
                if self.phase != ProtocolPhase::Authenticated || !self.manifest_offered {
                    return Err(self.invalid(message));
                }
                self.require_session(*session_id)?;
                if self.manifest_accepted {
                    return Err(self.invalid(message));
                }
                self.manifest_accepted = true;
                self.phase = ProtocolPhase::Transferring;
            },
            _ => {},
        }
        Ok(())
    }

    /// A message within the session whose identifier was compared already.
    fn accept_session_message(&mut self, message: &WireMessage) -> (result: Result<(), WireError>)
        requires
            old(self)@.phase != ProtocolPhase::Closed,
            message@ matches MessageModel::ChunkRequest { session_id, .. }
                ==> old(self)@.session_id == Some(session_id),
            message@ matches MessageModel::ChunkData { session_id, .. }
                ==> old(self)@.session_id == Some(session_id),
            message@ matches MessageModel::ChunkAck { session_id, .. }
                ==> old(self)@.session_id == Some(session_id),
            message@ matches MessageModel::Pause { session_id } ==> old(self)@.session_id == Some(
                session_id,
            ),
            message@ matches MessageModel::Resume { session_id } ==> old(self)@.session_id == Some(
                session_id,
            ),
            message@ matches MessageModel::Cancel { session_id, .. } ==> old(self)@.session_id
                == Some(session_id),
            message@ matches MessageModel::Close { session_id, .. } ==> old(self)@.session_id
                == Some(session_id),
            message@ is ChunkRequest || message@ is ChunkData || message@ is ChunkAck
                || message@ is Pause || message@ is Resume || message@ is Cancel
                || message@ is Close,
        ensures
            match old(self)@.accepting(message@) {
                Ok(next) => result is Ok && final(self)@ == next,
                Err(error) => result == Err::<(), WireError>(error) && final(self)@ == old(self)@,
            },
    {
        reveal(StateModel::accepting);
        reveal(WireMessage::model);
        match message {
            WireMessage::ChunkRequest { .. }
            | WireMessage::ChunkData { .. }
            | WireMessage::ChunkAck { .. } => {
                if self.phase != ProtocolPhase::Transferring || self.paused {
                    return Err(self.invalid(message));
                }
            },
            WireMessage::Pause { .. } => {
                if self.phase != ProtocolPhase::Transferring || self.paused {
                    return Err(self.invalid(message));
                }
                self.paused = true;
            },
            WireMessage::Resume { .. } => {
                if self.phase != ProtocolPhase::Transferring || !self.paused {
                    return Err(self.invalid(message));
                }
                self.paused = false;
            },
            WireMessage::Cancel { .. } => {
                self.phase = ProtocolPhase::Closing;
            },
            WireMessage::Close { .. } => {
                self.phase = ProtocolPhase::Closed;
            },
            _ => {},
        }
        Ok(())
    }

    fn require_session(&self, session_id: WireId) -> (result: Result<(), WireError>)
        ensures
            result == (if self@.session_id == Some(session_id@) {
                Ok::<(), WireError>(())
            } else {
                Err(WireError::InvalidSession)
            }),
    {
        match &self.session_id {
            Some(current) => if current.same(&session_id) {
                Ok(())
            } else {
                Err(WireError::InvalidSession)
            },
            None => Err(WireError::InvalidSession),
        }
    }

    fn require_capabilities(&self, acknowledged: &[CapabilityOffer]) -> (result: Result<
        (),
        WireError,
    >)
        ensures
            result == (match first_missing(self@.required_capabilities, acknowledged@) {
                Some(id) => Err(WireError::MissingRequiredCapability { id }),
                None => Ok::<(), WireError>(()),
            }),
    {
        let ghost required = self.required_capabilities@;
        let mut i: usize = 0;
        assert(required.skip(0) =~= required);
        while i < self.required_capabilities.len()
            invariant
                i <= required.len(),
                required == self.required_capabilities@,
                first_missing(required, acknowledged@) == first_missing(
                    required.skip(i as int),
                    acknowledged@,
                ),
            decreases required.len() - i,
        {
            let id: u16 = self.required_capabilities[i];
            let mut found = false;
            let mut k: usize = 0;
            while k < acknowledged.len() && !found
                invariant
                    k <= acknowledged@.len(),
                    found ==> acknowledges(acknowledged@, id),
                    !found ==> forall|j: int| 0 <= j < k ==> (#[trigger] acknowledged@[j]).id != id,
                decreases acknowledged@.len() - k,
            {
                if acknowledged[k].id == id {
                    found = true;
                }
                k = k + 1;
            }
            assert(found == acknowledges(acknowledged@, id));
            assert(required.skip(i as int)[0] == id);
            assert(required.skip(i as int).skip(1) =~= required.skip(i as int + 1));
            if !found {
                return Err(WireError::MissingRequiredCapability { id });
            }
            i = i + 1;
        }
        Ok(())
    }

    fn invalid(&self, message: &WireMessage) -> (error: WireError)
        ensures
            error == self@.refusal(message@),
    {
        WireError::InvalidState { phase: self.phase, message_type: message.message_type() }
    }
}

fn collect_required(offers: &Vec<CapabilityOffer>) -> (ids: Vec<u16>)
    ensures
        ids@ == required_ids(offers@),
{
    let mut ids: Vec<u16> = Vec::new();
    let mut i: usize = 0;
    while i < offers.len()
        invariant
            i <= offers@.len(),
            ids@ == required_ids(offers@.take(i as int)),
        decreases offers@.len() - i,
    {
        assert(offers@.take(i as int + 1).drop_last() =~= offers@.take(i as int));
        if offers[i].required {
            ids.push(offers[i].id);
        }
        i = i + 1;
    }
    assert(offers@.take(i as int) =~= offers@);
    ids
}

} // verus!
