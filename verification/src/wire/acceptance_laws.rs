//! Which messages a connection takes, and what each of them changes.
use vstd::prelude::*;
use crate::wire::frame::{FrameHeader, FrameModel, PayloadModel};
use crate::wire::message::MessageModel;
use crate::wire::state::StateModel;
use crate::wire::state_laws::{
    accepting_all, consistent, law_opening_leads_to_transferring, opening,
};
use crate::wire::types::{
    AuthMessageKind, CapabilityOffer, ProtocolPhase, WireError, WireRole, WireVersion,
};

verus! {

/// While a session transfers and is not paused, every request for a chunk, every chunk and every
/// acknowledgement of that session is taken, and none of them changes anything.
pub proof fn law_chunks_are_taken(
    state: StateModel,
    session_id: Seq<u8>,
    file_id: Seq<u8>,
    index: u64,
    offset: u64,
    length: u64,
    body: Seq<u8>,
)
    requires
        state.phase == ProtocolPhase::Transferring,
        !state.paused,
        state.session_id == Some(session_id),
    ensures
        state.accepting(MessageModel::ChunkRequest { session_id, file_id, index, offset, length })
            == Ok::<StateModel, WireError>(state),
        state.accepting(MessageModel::ChunkData { session_id, file_id, index, offset, length, body })
            == Ok::<StateModel, WireError>(state),
        state.accepting(MessageModel::ChunkAck { session_id, file_id, index, offset, length })
            == Ok::<StateModel, WireError>(state),
{
    reveal(StateModel::accepting);
}

/// A transfer that is paused, or that has not begun or is over, takes no chunk.
pub proof fn law_chunks_wait_for_the_transfer(
    state: StateModel,
    session_id: Seq<u8>,
    file_id: Seq<u8>,
    index: u64,
    offset: u64,
    length: u64,
    body: Seq<u8>,
)
    requires
        state.phase != ProtocolPhase::Transferring || state.paused,
    ensures
        state.accepting(MessageModel::ChunkRequest { session_id, file_id, index, offset, length })
            is Err,
        state.accepting(MessageModel::ChunkData { session_id, file_id, index, offset, length, body })
            is Err,
        state.accepting(MessageModel::ChunkAck { session_id, file_id, index, offset, length })
            is Err,
{
    reveal(StateModel::accepting);
}

/// A running transfer can be paused, a paused one resumed, and neither the other way round; only
/// whether the transfer is paused changes.
pub proof fn law_transfers_can_be_paused_and_resumed(state: StateModel, session_id: Seq<u8>)
    requires
        state.phase == ProtocolPhase::Transferring,
        state.session_id == Some(session_id),
    ensures
        state.paused ==> {
            &&& state.accepting(MessageModel::Pause { session_id }) is Err
            &&& state.accepting(MessageModel::Resume { session_id }) == Ok::<StateModel, WireError>(
                StateModel { paused: false, ..state },
            )
        },
        !state.paused ==> {
            &&& state.accepting(MessageModel::Resume { session_id }) is Err
            &&& state.accepting(MessageModel::Pause { session_id }) == Ok::<StateModel, WireError>(
                StateModel { paused: true, ..state },
            )
        },
{
    reveal(StateModel::accepting);
}

/// A session can be cancelled and closed at any time before it is closed, paused or not.
pub proof fn law_sessions_can_be_ended(state: StateModel, session_id: Seq<u8>, reason: u16)
    requires
        state.phase != ProtocolPhase::Closed,
        state.session_id == Some(session_id),
    ensures
        state.accepting(MessageModel::Cancel { session_id, reason }) == Ok::<StateModel, WireError>(
            StateModel { phase: ProtocolPhase::Closing, ..state },
        ),
        state.accepting(MessageModel::Close { session_id, reason }) == Ok::<StateModel, WireError>(
            StateModel { phase: ProtocolPhase::Closed, ..state },
        ),
{
    reveal(StateModel::accepting);
}

/// A report of an error is heard at any time before the end, and changes nothing.
pub proof fn law_errors_are_heard(state: StateModel, code: u16)
    ensures
        state.phase != ProtocolPhase::Closed ==> state.accepting(MessageModel::Error { code })
            == Ok::<StateModel, WireError>(state),
        state.phase == ProtocolPhase::Closed ==> state.accepting(MessageModel::Error { code }) is Err,
{
    reveal(StateModel::accepting);
}

/// The session that a message belongs to, if it belongs to one that was agreed on before it.
pub open spec fn session_named(message: MessageModel) -> Option<Seq<u8>> {
    match message {
        MessageModel::SessionAccept { session_id } => Some(session_id),
        MessageModel::ManifestOffer { session_id, .. } => Some(session_id),
        MessageModel::ManifestAccept { session_id } => Some(session_id),
        MessageModel::ChunkRequest { session_id, .. } => Some(session_id),
        MessageModel::ChunkData { session_id, .. } => Some(session_id),
        MessageModel::ChunkAck { session_id, .. } => Some(session_id),
        MessageModel::Pause { session_id } => Some(session_id),
        MessageModel::Resume { session_id } => Some(session_id),
        MessageModel::Cancel { session_id, .. } => Some(session_id),
        MessageModel::Close { session_id, .. } => Some(session_id),
        _ => None,
    }
}

/// Nobody can meddle with a session that is not theirs: a message that names another session than
/// the agreed one is refused, in every state.
pub proof fn law_other_sessions_are_refused(state: StateModel, message: MessageModel)
    requires
        session_named(message) matches Some(id) && state.session_id != Some(id),
    ensures
        state.accepting(message) is Err,
{
    reveal(StateModel::accepting);
}

/// On a connection on which nothing happened yet, only a greeting and a report of an error are
/// taken, and the greeting always is.
pub proof fn law_connections_open_with_a_greeting(message: MessageModel)
    ensures
        StateModel::initial().accepting(message) is Ok <==> message is Hello || message is Error,
        message is Hello ==> StateModel::initial().accepting(message)->Ok_0.phase
            == ProtocolPhase::Negotiating,
{
    reveal(StateModel::accepting);
}

/// A connection is greeted once.
pub proof fn law_greetings_are_not_repeated(
    state: StateModel,
    capabilities: Seq<CapabilityOffer>,
)
    requires
        state.phase != ProtocolPhase::PreAuthentication,
        state.phase != ProtocolPhase::Closed,
    ensures
        state.accepting(MessageModel::Hello { capabilities }) == Err::<StateModel, WireError>(
            WireError::DuplicateNegotiation,
        ),
{
    reveal(StateModel::accepting);
}

/// A greeting is answered by an acknowledgement, and accepted exactly if the acknowledgement names
/// every capability that the greeting requires. Nothing else is then taken but a report of an error.
pub proof fn law_greetings_are_acknowledged(
    offers: Seq<CapabilityOffer>,
    version: WireVersion,
    acknowledged: Seq<CapabilityOffer>,
    other: MessageModel,
)
    ensures
        ({
            let greeted = StateModel::initial().accepting(
                MessageModel::Hello { capabilities: offers },
            )->Ok_0;
            let answer = greeted.accepting(
                MessageModel::HelloAck { version, capabilities: acknowledged },
            );
            &&& answer is Ok <==> forall|i: int|
                0 <= i < offers.len() && (#[trigger] offers[i]).required ==> exists|k: int|
                    0 <= k < acknowledged.len() && (#[trigger] acknowledged[k]).id == offers[i].id
            &&& answer is Ok ==> answer->Ok_0.phase == ProtocolPhase::Authenticating
            &&& greeted.accepting(other) is Ok ==> other is HelloAck || other is Error
        }),
{
    reveal(StateModel::accepting);
    lemma_first_missing(offers, acknowledged);
}

proof fn lemma_first_missing(offers: Seq<CapabilityOffer>, acknowledged: Seq<CapabilityOffer>)
    ensures
        crate::wire::state::first_missing(
            crate::wire::state::required_ids(offers),
            acknowledged,
        ) is None <==> forall|i: int|
            0 <= i < offers.len() && (#[trigger] offers[i]).required ==> exists|k: int|
                0 <= k < acknowledged.len() && (#[trigger] acknowledged[k]).id == offers[i].id,
{
    let required = crate::wire::state::required_ids(offers);
    lemma_required_ids(offers);
    crate::wire::state_laws::law_acknowledgement_covers_required(required, acknowledged);
    if crate::wire::state::first_missing(required, acknowledged) is None {
        assert forall|i: int| 0 <= i < offers.len() && (#[trigger] offers[i]).required implies exists|
            k: int,
        |
            0 <= k < acknowledged.len() && (#[trigger] acknowledged[k]).id == offers[i].id by {
            let j = choose|j: int| 0 <= j < required.len() && required[j] == offers[i].id;
            assert(crate::wire::state::acknowledges(acknowledged, required[j]));
        }
    } else {
        let j = choose|j: int|
            0 <= j < required.len() && !crate::wire::state::acknowledges(
                acknowledged,
                #[trigger] required[j],
            );
        assert(requires_id(offers, required[j]));
        let i = choose|i: int|
            0 <= i < offers.len() && (#[trigger] offers[i]).required && offers[i].id == required[j];
        assert(offers[i].required);
    }
}

spec fn requires_id(offers: Seq<CapabilityOffer>, id: u16) -> bool {
    exists|i: int| 0 <= i < offers.len() && (#[trigger] offers[i]).required && offers[i].id == id
}

proof fn lemma_required_ids(offers: Seq<CapabilityOffer>)
    ensures
        forall|i: int|
            0 <= i < offers.len() && (#[trigger] offers[i]).required
                ==> crate::wire::state::required_ids(offers).contains(offers[i].id),
        forall|j: int|
            0 <= j < crate::wire::state::required_ids(offers).len() ==> requires_id(
                offers,
                #[trigger] crate::wire::state::required_ids(offers)[j],
            ),
    decreases offers.len(),
{
    if offers.len() > 0 {
        let earlier = offers.drop_last();
        let before = crate::wire::state::required_ids(earlier);
        let all = crate::wire::state::required_ids(offers);
        lemma_required_ids(earlier);
        assert forall|i: int| 0 <= i < offers.len() && (#[trigger] offers[i]).required implies all.contains(
            offers[i].id,
        ) by {
            if i < earlier.len() {
                assert(earlier[i].required);
                let j = choose|j: int| 0 <= j < before.len() && before[j] == earlier[i].id;
                assert(all[j] == before[j]);
            } else {
                assert(all.last() == offers[i].id);
            }
        }
        assert forall|j: int| 0 <= j < all.len() implies requires_id(
            offers,
            #[trigger] all[j],
        ) by {
            if j < before.len() {
                assert(before[j] == all[j]);
                assert(requires_id(earlier, before[j]));
                let i = choose|i: int|
                    0 <= i < earlier.len() && (#[trigger] earlier[i]).required && earlier[i].id
                        == before[j];
                assert(offers[i].required && offers[i].id == all[j]);
            } else {
                assert(offers[offers.len() - 1].required);
            }
        }
    }
}

/// Authentication takes its three steps in order, each once; the last of them ends it.
pub proof fn law_authentication_goes_step_by_step(
    state: StateModel,
    kind: AuthMessageKind,
    body: Seq<u8>,
)
    requires
        consistent(state),
        state.phase == ProtocolPhase::Authenticating,
    ensures
        state.accepting(MessageModel::Auth { kind, body }) is Ok <==> match kind {
            AuthMessageKind::Init => !state.auth_started,
            AuthMessageKind::Response => state.auth_started && !state.auth_responded,
            AuthMessageKind::Confirm => state.auth_responded,
        },
        state.accepting(MessageModel::Auth { kind, body }) matches Ok(next) ==> {
            &&& (next.phase == ProtocolPhase::Authenticated) == (kind == AuthMessageKind::Confirm)
            &&& next.auth_started
            &&& next.auth_responded == (kind != AuthMessageKind::Init)
            &&& next.auth_confirmed == (kind == AuthMessageKind::Confirm)
            &&& next.session_id == state.session_id
        },
{
    reveal(StateModel::accepting);
}

/// Authentication is not possible before the greeting was acknowledged, nor after it is done.
pub proof fn law_authentication_has_its_time(
    state: StateModel,
    kind: AuthMessageKind,
    body: Seq<u8>,
)
    requires
        state.phase != ProtocolPhase::Authenticating,
    ensures
        state.accepting(MessageModel::Auth { kind, body }) is Err,
{
    reveal(StateModel::accepting);
}

/// Who is authenticated can start one session, which the other side accepts once; then one manifest
/// is offered and accepted once, and the transfer begins. Each step needs the one before it.
pub proof fn law_sessions_are_set_up_step_by_step(
    state: StateModel,
    session_id: Seq<u8>,
    transfer_id: Seq<u8>,
    role: WireRole,
    file_count: u64,
    total_size: u64,
    body: Seq<u8>,
)
    requires
        consistent(state),
        state.phase == ProtocolPhase::Authenticated,
        state.session_id is None || state.session_id == Some(session_id),
    ensures
        ({
            let start = state.accepting(
                MessageModel::SessionStart { session_id, transfer_id, role },
            );
            let accept = state.accepting(MessageModel::SessionAccept { session_id });
            let offer = state.accepting(
                MessageModel::ManifestOffer { session_id, file_count, total_size, body },
            );
            let agree = state.accepting(MessageModel::ManifestAccept { session_id });
            &&& start is Ok <==> state.session_id is None
            &&& start is Ok ==> start->Ok_0.session_id == Some(session_id)
            &&& accept is Ok <==> state.session_id is Some && !state.session_accepted
            &&& accept is Ok ==> accept->Ok_0.session_accepted && accept->Ok_0.phase == state.phase
            &&& offer is Ok <==> state.session_accepted && !state.manifest_offered
            &&& offer is Ok ==> offer->Ok_0.manifest_offered && offer->Ok_0.phase == state.phase
            &&& agree is Ok <==> state.manifest_offered
            &&& agree is Ok ==> agree->Ok_0.phase == ProtocolPhase::Transferring
        }),
{
    reveal(StateModel::accepting);
}

/// A session and its manifest are agreed on only by who is authenticated and not yet transferring.
pub proof fn law_set_up_has_its_time(state: StateModel, message: MessageModel)
    requires
        state.phase != ProtocolPhase::Authenticated,
        message is SessionStart || message is SessionAccept || message is ManifestOffer
            || message is ManifestAccept,
    ensures
        state.accepting(message) is Err,
{
    reveal(StateModel::accepting);
}

/// A frame is taken exactly if it comes after the last one and its message is taken; one that the
/// other side marked as optional and that nobody knows is passed over.
pub proof fn law_frames_are_taken_in_order(
    state: StateModel,
    header: FrameHeader,
    message: MessageModel,
    message_type: u8,
    body: Seq<u8>,
)
    ensures
        ({
            let known = FrameModel { header, payload: PayloadModel::Message(message) };
            let unknown = FrameModel {
                header,
                payload: PayloadModel::UnknownOptional { message_type, body },
            };
            let in_order = match state.last_sequence {
                Some(previous) => previous < header.sequence,
                None => true,
            };
            &&& state.accepting_frame(known) is Ok <==> in_order && state.accepting(message) is Ok
            &&& state.accepting_frame(known) is Ok ==> state.accepting_frame(known)->Ok_0 == (
            StateModel { last_sequence: Some(header.sequence), ..state.accepting(message)->Ok_0 })
            &&& state.accepting_frame(unknown) is Ok <==> in_order
            &&& state.accepting_frame(unknown) is Ok ==> state.accepting_frame(unknown)->Ok_0 == (
            StateModel { last_sequence: Some(header.sequence), ..state })
        }),
{
}

proof fn lemma_one_more_message(
    state: StateModel,
    messages: Seq<MessageModel>,
    message: MessageModel,
)
    ensures
        accepting_all(state, messages.push(message)) == (match accepting_all(state, messages) {
            Ok(next) => next.accepting(message),
            Err(error) => Err(error),
        }),
    decreases messages.len(),
{
    let longer = messages.push(message);
    if messages.len() > 0 {
        assert(longer[0] == messages[0]);
        assert(longer.skip(1) =~= messages.skip(1).push(message));
        if let Ok(next) = state.accepting(messages[0]) {
            lemma_one_more_message(next, messages.skip(1), message);
        }
    } else {
        assert(longer[0] == message);
        assert(longer.skip(1) =~= Seq::<MessageModel>::empty());
        if let Ok(next) = state.accepting(message) {
            assert(accepting_all(next, longer.skip(1)) == Ok::<StateModel, WireError>(next));
        }
    }
}

/// A chunk is asked for, sent and acknowledged.
pub open spec fn one_chunk(
    session_id: Seq<u8>,
    file_id: Seq<u8>,
    index: u64,
    offset: u64,
    length: u64,
    body: Seq<u8>,
) -> Seq<MessageModel> {
    seq![
        MessageModel::ChunkRequest { session_id, file_id, index, offset, length },
        MessageModel::ChunkData { session_id, file_id, index, offset, length, body },
        MessageModel::ChunkAck { session_id, file_id, index, offset, length },
    ]
}

/// Whoever opens a transfer in order, naming every capability that is required, can then ask for,
/// send and acknowledge chunks.
pub proof fn law_chunks_are_taken_after_the_opening(
    version: WireVersion,
    offers: Seq<CapabilityOffer>,
    acknowledged: Seq<CapabilityOffer>,
    proofs: (Seq<u8>, Seq<u8>, Seq<u8>),
    ids: (Seq<u8>, Seq<u8>, Seq<u8>),
    role: WireRole,
    files: (u64, u64, Seq<u8>),
    chunk: (u64, u64, u64, Seq<u8>),
)
    requires
        forall|i: int|
            0 <= i < offers.len() && (#[trigger] offers[i]).required ==> exists|k: int|
                0 <= k < acknowledged.len() && (#[trigger] acknowledged[k]).id == offers[i].id,
    ensures
        accepting_all(
            StateModel::initial(),
            opening(version, offers, acknowledged, proofs, ids.0, ids.1, role, files) + one_chunk(
                ids.0,
                ids.2,
                chunk.0,
                chunk.1,
                chunk.2,
                chunk.3,
            ),
        ) matches Ok(state) && state.phase == ProtocolPhase::Transferring && !state.paused
            && state.session_id == Some(ids.0),
{
    let first = opening(version, offers, acknowledged, proofs, ids.0, ids.1, role, files);
    let then = one_chunk(ids.0, ids.2, chunk.0, chunk.1, chunk.2, chunk.3);
    lemma_first_missing(offers, acknowledged);
    law_opening_leads_to_transferring(
        version,
        offers,
        acknowledged,
        proofs,
        ids.0,
        ids.1,
        role,
        files,
    );
    let start = StateModel::initial();
    let state = accepting_all(start, first)->Ok_0;
    law_chunks_are_taken(state, ids.0, ids.2, chunk.0, chunk.1, chunk.2, chunk.3);
    lemma_one_more_message(start, first, then[0]);
    lemma_one_more_message(start, first.push(then[0]), then[1]);
    lemma_one_more_message(start, first.push(then[0]).push(then[1]), then[2]);
    assert(first.push(then[0]).push(then[1]).push(then[2]) =~= first + then);
}

/// Why a message is refused: a greeting that came already, an acknowledgement that leaves out what
/// is required, a message of another session, and everything else because it came out of its turn.
pub proof fn law_refusals_tell_why(state: StateModel, message: MessageModel)
    ensures
        state.accepting(message) matches Err(error) ==> {
            ||| error == WireError::DuplicateNegotiation && message is Hello
            ||| error is MissingRequiredCapability && message is HelloAck
            ||| error == WireError::InvalidSession
            ||| error == (WireError::InvalidState {
                phase: state.phase,
                message_type: message.message_type(),
            })
        },
        state.phase == ProtocolPhase::Closed ==> state.accepting(message) == Err::<
            StateModel,
            WireError,
        >(WireError::InvalidState { phase: state.phase, message_type: message.message_type() }),
{
    reveal(StateModel::accepting);
}

} // verus!
