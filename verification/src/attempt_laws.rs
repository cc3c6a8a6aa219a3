//! How an attempt at a transfer begins, runs and is given up.
use vstd::prelude::*;
use crate::backend::BackendError;
use crate::ident::TransferId;
use crate::session::{TransferErrorModel, TransferEvent, TransferState};
use crate::transfer_model::{
    at, AttemptModel, CancelStep, EstablishStep, ManagerModel, TransferNotification,
};
use crate::transfer_step_laws::{moved_on, tells_also};

verus! {

/// One more thing is told of a transfer.
pub open spec fn told_next(
    events: Seq<TransferNotification>,
    id: TransferId,
    event: TransferEvent,
) -> Seq<TransferNotification> {
    events.push(TransferNotification { transfer_id: id, event })
}

/// A new transfer is connected, authenticated, negotiated and then runs, whichever way it goes: each
/// step is asked for by the one before, each is told, and then the backend is followed.
pub proof fn law_attempts_lead_to_a_running_transfer(model: ManagerModel, id: TransferId)
    requires
        model.session(id) matches Some(session) && session.state == TransferState::Created,
    ensures
        model.contacting_receiver(id, false) == (
            model.contacting_sender(id, false).0,
            AttemptModel::Contact,
        ),
        ({
            let (contacted, first) = model.contacting_sender(id, false);
            let (answered, second) = contacted.answered(id, Ok(()), false);
            let (connected, third) = answered.establishing(id, EstablishStep::Connected, false);
            let (known, fourth) = connected.establishing(id, EstablishStep::Authenticating, false);
            let (agreed, fifth) = known.establishing(id, EstablishStep::Negotiating, false);
            let (running, sixth) = agreed.establishing(id, EstablishStep::Transferring, false);
            &&& first == Ok::<AttemptModel, TransferErrorModel>(AttemptModel::Contact)
            &&& second == AttemptModel::Establish(EstablishStep::Connected)
            &&& third == Ok::<AttemptModel, TransferErrorModel>(
                AttemptModel::Establish(EstablishStep::Authenticating),
            )
            &&& fourth == Ok::<AttemptModel, TransferErrorModel>(
                AttemptModel::Establish(EstablishStep::Negotiating),
            )
            &&& fifth == Ok::<AttemptModel, TransferErrorModel>(
                AttemptModel::Establish(EstablishStep::Transferring),
            )
            &&& sixth == Ok::<AttemptModel, TransferErrorModel>(AttemptModel::Monitor)
            &&& running.session(id) matches Some(session) && moved_on(
                model.session(id)->Some_0,
                session,
                TransferState::Transferring,
            )
            &&& running.events == told_next(
                told_next(
                    told_next(
                        told_next(
                            told_next(model.events, id, TransferEvent::Connecting),
                            id,
                            TransferEvent::Connected,
                        ),
                        id,
                        TransferEvent::Authenticating,
                    ),
                    id,
                    TransferEvent::Negotiating,
                ),
                id,
                TransferEvent::Started,
            )
            &&& running.retries == model.retries && running.active == model.active
        }),
{
}

/// The transfer is cancelled, that is told, no attempt at it is under way any more, and nothing of
/// it is kept.
pub open spec fn is_given_up(before: ManagerModel, after: ManagerModel, id: TransferId) -> bool {
    &&& after.session(id) matches Some(session) && moved_on(
        before.session(id)->Some_0,
        session,
        TransferState::Cancelled,
    )
    &&& tells_also(before, after, id, TransferEvent::Cancelled)
    &&& !after.active.contains(id.bits())
    &&& at(after.retries, id) is None
}

/// Whoever cancels is heard at every step: before the backend is called the attempt ends at once,
/// and afterwards what the backend does is cancelled first.
pub proof fn law_attempts_can_be_given_up(
    model: ManagerModel,
    id: TransferId,
    step: EstablishStep,
    error: BackendError,
)
    requires
        model.session(id) matches Some(session) && session.state != TransferState::Completed
            && session.state != TransferState::Failed && session.state != TransferState::Cancelled,
    ensures
        model.contacting_sender(id, true).1 matches Ok(AttemptModel::Ended(end))
            && end.persist is None && end.remove_metadata == model.keeps_recovery,
        model.contacting_receiver(id, true).1 matches AttemptModel::Ended(end)
            && end.persist is None && end.remove_metadata == model.keeps_recovery,
        is_given_up(model, model.contacting_sender(id, true).0, id),
        is_given_up(model, model.contacting_receiver(id, true).0, id),
        model.answered(id, Ok(()), true) == (model, AttemptModel::CancelHandle),
        is_given_up(model, model.answered(id, Err(error), true).0, id),
        model.establishing(id, step, true) == (
            model,
            Ok::<AttemptModel, TransferErrorModel>(AttemptModel::CancelHandle),
        ),
{
    let without = model.contacting_sender(id, true).0;
    assert(without.events.drop_last() =~= model.events);
    let other = model.answered(id, Err(error), true).0;
    assert(other.events.drop_last() =~= model.events);
}

/// A backend that cannot be reached fails the attempt, for the reason it gives.
pub proof fn law_unreachable_backends_fail_the_attempt(
    model: ManagerModel,
    id: TransferId,
    error: BackendError,
)
    requires
        model.session(id) matches Some(session) && session.state == TransferState::Connecting,
        !(error is Cancelled),
    ensures
        model.answered(id, Err(error), false).1 is Ended,
        model.answered(id, Err(error), false).0.session(id) matches Some(session) && session.state
            == TransferState::Failed && session.error == Some(error.safe_text())
            && session.failure_kind == Some(error.kind()),
{
}

/// A transfer that cannot start is refused to whoever sends, and fails for whoever receives.
pub proof fn law_what_cannot_start(model: ManagerModel, id: TransferId)
    requires
        model.session(id) matches Some(session) && session.state == TransferState::Transferring,
    ensures
        model.contacting_sender(id, false).0 == model,
        model.contacting_sender(id, false).1 is Err,
        model.contacting_receiver(id, false).1 is Ended,
        model.contacting_receiver(id, false).0.session(id) matches Some(session) && session.state
            == TransferState::Failed,
{
}

/// A transfer under way is cancelled through its attempt, and one without an attempt at once; one
/// that is cancelled already stays so, and one that completed or failed cannot be.
pub proof fn law_cancelling(model: ManagerModel, id: TransferId)
    ensures
        model.session(id) is None ==> model.cancelling(id).0 == model && model.cancelling(
            id,
        ).1 is Err,
        model.session(id) matches Some(session) ==> {
            let (after, step) = model.cancelling(id);
            let ended = session.state == TransferState::Completed || session.state
                == TransferState::Failed;
            &&& ended ==> after == model && step == Err::<CancelStep, TransferErrorModel>(
                TransferErrorModel::CancelNotAllowed(session.state),
            )
            &&& session.state == TransferState::Cancelled ==> after == model && step == Ok::<
                CancelStep,
                TransferErrorModel,
            >(CancelStep::Done)
            &&& !ended && session.state != TransferState::Cancelled && model.active.contains(
                id.bits(),
            ) ==> after == model && step == Ok::<CancelStep, TransferErrorModel>(CancelStep::Signal)
            &&& !ended && session.state != TransferState::Cancelled && !model.active.contains(
                id.bits(),
            ) ==> step == Ok::<CancelStep, TransferErrorModel>(CancelStep::Done) && is_given_up(
                model,
                after,
                id,
            )
        },
{
    let after = model.cancelling(id).0;
    if after != model {
        assert(after.events.drop_last() =~= model.events);
    }
}

} // verus!
