//! The two sides of a connection, taken together: whatever one side sends,
//! the other side is waiting for.

use vstd::prelude::*;
use crate::initiator::{
    initiator_moves, initiator_next, InitiatorAction, InitiatorEvent, InitiatorState, Round,
};
use crate::responder::{
    responder_next, ResponderAction, ResponderEvent, ResponderState, Service,
};
use crate::width::{Choice, Width};

verus! {

/// Whether the two sides are in step: each stands where the other side
/// takes it to stand.
pub open spec fn in_step(initiator: InitiatorState, responder: ResponderState) -> bool {
    match initiator {
        InitiatorState::Connecting => responder == ResponderState::AwaitingKey,
        InitiatorState::KeyExchanged => responder == ResponderState::AwaitingSelector,
        InitiatorState::SelectingWidth => responder == ResponderState::AwaitingSelector,
        InitiatorState::Disconnected => responder == ResponderState::Closed,
        InitiatorState::EvaluatingWidth(width, round) => match round {
            Round::Announce | Round::Formula | Round::Values => responder
                == ResponderState::Serving(width, Service::Formula),
            Round::SendFormula => responder == ResponderState::Serving(width, Service::Values),
            Round::SendValues | Round::Outcome => responder == ResponderState::Serving(
                width,
                Service::Evaluate,
            ) || (exists|success: bool|
                responder == ResponderState::Serving(width, Service::Reply(success))),
            Round::Verify => responder == ResponderState::AwaitingSelector,
        },
    }
}

/// What reaches the responder when the initiator performs the action: the
/// event that the message is to the responder, or `None` for an action that
/// sends nothing.
pub open spec fn upstream(action: InitiatorAction) -> Option<ResponderEvent> {
    match action {
        InitiatorAction::SendKey => Some(ResponderEvent::Done),
        InitiatorAction::SendSelector(byte) => Some(ResponderEvent::Selector(byte)),
        InitiatorAction::SendFormula => Some(ResponderEvent::Done),
        InitiatorAction::SendValues => Some(ResponderEvent::Done),
        _ => None,
    }
}

/// A session begins in step.
pub proof fn lemma_sessions_begin_in_step()
    ensures
        in_step(InitiatorState::Connecting, ResponderState::AwaitingKey),
{
}

/// What the initiator does of its own accord keeps the two sides in step:
/// an action that sends nothing leaves the responder where it is, and a
/// message finds the responder waiting for it, never as a byte that selects
/// nothing.
pub proof fn lemma_initiator_keeps_in_step(
    initiator: InitiatorState,
    responder: ResponderState,
    event: InitiatorEvent,
    next: InitiatorState,
    action: InitiatorAction,
)
    requires
        in_step(initiator, responder),
        !(event is Outcome),
        initiator_moves(initiator, event, Some((next, action))),
    ensures
        match upstream(action) {
            None => in_step(next, responder),
            Some(message) => responder_next(responder, message) matches Some((served, reply))
                && in_step(next, served) && reply != ResponderAction::Abort,
        },
{
}

/// The end of an evaluation keeps the two sides in step.
pub proof fn lemma_evaluation_keeps_in_step(
    initiator: InitiatorState,
    width: Width,
    success: bool,
)
    requires
        in_step(initiator, ResponderState::Serving(width, Service::Evaluate)),
    ensures
        responder_next(
            ResponderState::Serving(width, Service::Evaluate),
            ResponderEvent::Evaluated(success),
        ) == Some(
            (ResponderState::Serving(width, Service::Reply(success)), ResponderAction::SendOutcome),
        ),
        in_step(initiator, ResponderState::Serving(width, Service::Reply(success))),
{
}

/// The outcome finds the initiator waiting for it, on the width that the
/// responder served, and takes both sides on in step: to the next selection
/// after a value, to the next formula of the same width after a failure.
pub proof fn lemma_outcome_keeps_in_step(
    initiator: InitiatorState,
    responder: ResponderState,
    served: Width,
    success: bool,
)
    requires
        in_step(initiator, responder),
        initiator matches InitiatorState::EvaluatingWidth(_, Round::Outcome),
        responder == ResponderState::Serving(served, Service::Reply(success)),
    ensures
        initiator == InitiatorState::EvaluatingWidth(served, Round::Outcome),
        initiator_next(initiator, InitiatorEvent::Outcome(success)) matches Some((next, _))
            && responder_next(responder, ResponderEvent::Done) matches Some((resumed, _))
            && in_step(next, resumed) && (if success {
            resumed == ResponderState::AwaitingSelector
        } else {
            resumed == ResponderState::Serving(served, Service::Formula)
        }),
{
}

} // verus!
