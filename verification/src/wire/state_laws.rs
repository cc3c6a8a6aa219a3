//! What the order of messages promises.
use vstd::prelude::*;
use crate::wire::frame::{FrameModel, PayloadModel};
use crate::wire::message::MessageModel;
use crate::wire::state::{first_missing, required_ids, StateModel};
use crate::wire::types::{
    AuthMessageKind, CapabilityOffer, ProtocolPhase, WireError, WireRole, WireVersion,
};

verus! {

pub open spec fn phase_rank(phase: ProtocolPhase) -> nat {
    match phase {
        ProtocolPhase::PreAuthentication => 0,
        ProtocolPhase::Negotiating => 1,
        ProtocolPhase::Authenticating => 2,
        ProtocolPhase::Authenticated => 3,
        ProtocolPhase::Transferring => 4,
        ProtocolPhase::Closing => 5,
        ProtocolPhase::Closed => 6,
    }
}

/// What every state that a connection can reach has in common.
pub open spec fn consistent(state: StateModel) -> bool {
    &&& state.hello_seen <==> state.phase != ProtocolPhase::PreAuthentication
    &&& state.hello_ack_seen <==> phase_rank(state.phase) >= 2
    &&& state.auth_responded ==> state.auth_started
    &&& state.auth_started ==> state.hello_ack_seen
    &&& state.auth_confirmed ==> state.auth_responded
    &&& state.auth_confirmed <==> phase_rank(state.phase) >= 3
    &&& state.session_started ==> state.auth_confirmed
    &&& state.session_started <==> state.session_id is Some
    &&& state.session_accepted ==> state.session_started
    &&& state.manifest_offered ==> state.session_accepted
    &&& state.manifest_accepted ==> state.manifest_offered
    &&& state.phase == ProtocolPhase::Transferring ==> state.manifest_accepted
    &&& state.manifest_accepted ==> phase_rank(state.phase) >= 4
    &&& phase_rank(state.phase) >= 5 ==> state.session_started
    &&& state.paused ==> state.manifest_accepted
}

/// Every connection starts in a consistent state.
pub proof fn law_initial_consistent()
    ensures
        consistent(StateModel::initial()),
{
}

/// Every accepted message leads from a consistent state to a consistent one.
pub proof fn law_consistent_kept(state: StateModel, message: MessageModel)
    requires
        consistent(state),
        state.accepting(message) is Ok,
    ensures
        consistent(state.accepting(message)->Ok_0),
{
    reveal(StateModel::accepting);
}

/// Every accepted frame leads from a consistent state to a consistent one.
pub proof fn law_consistent_kept_by_frames(state: StateModel, frame: FrameModel)
    requires
        consistent(state),
        state.accepting_frame(frame) is Ok,
    ensures
        consistent(state.accepting_frame(frame)->Ok_0),
{
    if let PayloadModel::Message(message) = frame.payload {
        law_consistent_kept(state, message);
    }
}

/// No message takes a connection back to an earlier phase.
pub proof fn law_phase_never_goes_back(state: StateModel, message: MessageModel)
    requires
        consistent(state),
        state.accepting(message) is Ok,
    ensures
        phase_rank(state.phase) <= phase_rank(state.accepting(message)->Ok_0.phase),
{
    reveal(StateModel::accepting);
}

/// A closed connection refuses every message.
pub proof fn law_closed_refuses_every_message(state: StateModel, message: MessageModel)
    requires
        state.phase == ProtocolPhase::Closed,
    ensures
        state.accepting(message) == Err::<StateModel, WireError>(
            WireError::InvalidState {
                phase: ProtocolPhase::Closed,
                message_type: message.message_type(),
            },
        ),
{
    reveal(StateModel::accepting);
}

/// Sequence numbers of accepted frames strictly increase, also past frames of unknown types.
pub proof fn law_sequences_increase(state: StateModel, frame: FrameModel)
    requires
        state.accepting_frame(frame) is Ok,
    ensures
        state.accepting_frame(frame)->Ok_0.last_sequence == Some(frame.header.sequence),
        state.last_sequence is Some ==> state.last_sequence->Some_0 < frame.header.sequence,
{
}

/// A frame that comes a second time is refused, whatever it carries.
pub proof fn law_repeated_frame_refused(state: StateModel, frame: FrameModel)
    requires
        state.accepting_frame(frame) is Ok,
    ensures
        state.accepting_frame(frame)->Ok_0.accepting_frame(frame) == Err::<StateModel, WireError>(
            WireError::InvalidSequence {
                sequence: frame.header.sequence,
                previous: frame.header.sequence,
            },
        ),
{
}

pub open spec fn is_chunk(message: MessageModel) -> bool {
    message is ChunkRequest || message is ChunkData || message is ChunkAck
}

/// Chunks move only after negotiation, authentication, an accepted session and an accepted
/// manifest, while the transfer is not paused, and they change nothing of the state.
pub proof fn law_chunks_need_the_whole_handshake(state: StateModel, message: MessageModel)
    requires
        consistent(state),
        is_chunk(message),
        state.accepting(message) is Ok,
    ensures
        state.hello_ack_seen,
        state.auth_confirmed,
        state.session_accepted,
        state.manifest_accepted,
        !state.paused,
        state.accepting(message)->Ok_0 == state,
{
    reveal(StateModel::accepting);
}

/// Whoever wants a session must have confirmed the authentication.
pub proof fn law_session_needs_authentication(state: StateModel, message: MessageModel)
    requires
        consistent(state),
        message is SessionStart,
        state.accepting(message) is Ok,
    ensures
        state.auth_started && state.auth_responded && state.auth_confirmed,
{
    reveal(StateModel::accepting);
}

/// Resuming undoes pausing.
pub proof fn law_resume_undoes_pause(state: StateModel, session_id: Seq<u8>)
    requires
        state.accepting(MessageModel::Pause { session_id }) is Ok,
    ensures
        state.accepting(MessageModel::Pause { session_id })->Ok_0.accepting(
            MessageModel::Resume { session_id },
        ) == Ok::<StateModel, WireError>(state),
{
    reveal(StateModel::accepting);
}

/// The state after several messages, one after the other.
pub open spec fn accepting_all(state: StateModel, messages: Seq<MessageModel>) -> Result<
    StateModel,
    WireError,
>
    decreases messages.len(),
{
    if messages.len() == 0 {
        Ok(state)
    } else {
        match state.accepting(messages[0]) {
            Ok(next) => accepting_all(next, messages.skip(1)),
            Err(error) => Err(error),
        }
    }
}

/// The messages that open a transfer, in their order.
pub open spec fn opening(
    version: WireVersion,
    offers: Seq<CapabilityOffer>,
    acknowledged: Seq<CapabilityOffer>,
    proofs: (Seq<u8>, Seq<u8>, Seq<u8>),
    session_id: Seq<u8>,
    transfer_id: Seq<u8>,
    role: WireRole,
    files: (u64, u64, Seq<u8>),
) -> Seq<MessageModel> {
    seq![
        MessageModel::Hello { capabilities: offers },
        MessageModel::HelloAck { version, capabilities: acknowledged },
        MessageModel::Auth { kind: AuthMessageKind::Init, body: proofs.0 },
        MessageModel::Auth { kind: AuthMessageKind::Response, body: proofs.1 },
        MessageModel::Auth { kind: AuthMessageKind::Confirm, body: proofs.2 },
        MessageModel::SessionStart { session_id, transfer_id, role },
        MessageModel::SessionAccept { session_id },
        MessageModel::ManifestOffer {
            session_id,
            file_count: files.0,
            total_size: files.1,
            body: files.2,
        },
        MessageModel::ManifestAccept { session_id },
    ]
}

/// Whoever says all that opens a transfer, in order, can transfer, whatever is agreed on; only an
/// acknowledgement that leaves a required capability out is refused.
pub proof fn law_opening_leads_to_transferring(
    version: WireVersion,
    offers: Seq<CapabilityOffer>,
    acknowledged: Seq<CapabilityOffer>,
    proofs: (Seq<u8>, Seq<u8>, Seq<u8>),
    session_id: Seq<u8>,
    transfer_id: Seq<u8>,
    role: WireRole,
    files: (u64, u64, Seq<u8>),
)
    ensures
        ({
            let messages = opening(
                version,
                offers,
                acknowledged,
                proofs,
                session_id,
                transfer_id,
                role,
                files,
            );
            match first_missing(required_ids(offers), acknowledged) {
                None => accepting_all(StateModel::initial(), messages) matches Ok(state)
                    && state.phase == ProtocolPhase::Transferring && !state.paused
                    && state.session_id == Some(session_id),
                Some(id) => accepting_all(StateModel::initial(), messages) == Err::<
                    StateModel,
                    WireError,
                >(WireError::MissingRequiredCapability { id }),
            }
        }),
{
    reveal(StateModel::accepting);
    reveal_with_fuel(accepting_all, 10);
}

/// An acknowledgement is accepted only if it names every required capability.
pub proof fn law_acknowledgement_covers_required(required: Seq<u16>, offers: Seq<CapabilityOffer>)
    ensures
        first_missing(required, offers) is None <==> forall|i: int|
            0 <= i < required.len() ==> crate::wire::state::acknowledges(
                offers,
                #[trigger] required[i],
            ),
    decreases required.len(),
{
    if required.len() > 0 {
        let later = required.skip(1);
        law_acknowledgement_covers_required(later, offers);
        if first_missing(required, offers) is None {
            assert forall|i: int| 0 <= i < required.len() implies crate::wire::state::acknowledges(
                offers,
                #[trigger] required[i],
            ) by {
                if i > 0 {
                    assert(later[i - 1] == required[i]);
                }
            }
        } else if forall|i: int|
            0 <= i < required.len() ==> crate::wire::state::acknowledges(
                offers,
                #[trigger] required[i],
            ) {
            assert(crate::wire::state::acknowledges(offers, required[0]));
            assert forall|i: int| 0 <= i < later.len() implies crate::wire::state::acknowledges(
                offers,
                #[trigger] later[i],
            ) by {
                assert(later[i] == required[i + 1]);
            }
        }
    }
}

} // verus!
