//! The decisions of the side that answers: what to do next on one
//! connection, given where it stands and what has just happened.

use vstd::prelude::*;
use crate::width::{Choice, Width};

verus! {

/// Where the service of one width stands.
#[derive(Copy, Clone, Debug, PartialEq, Eq, Structural)]
pub enum Service {
    /// The text of a formula is awaited.
    Formula,
    /// The list of identifiers and values is awaited.
    Values,
    /// The formula is being evaluated.
    Evaluate,
    /// The outcome is being sent: a value (`true`) or a failure (`false`).
    Reply(bool),
}

/// Where a connection stands on the side that answers.
#[derive(Copy, Clone, Debug, PartialEq, Eq, Structural)]
pub enum ResponderState {
    /// The evaluation key is awaited.
    AwaitingKey,
    /// A selector byte is awaited.
    AwaitingSelector,
    /// Formulas are evaluated on operands of one width.
    Serving(Width, Service),
    /// The connection has ended at the wish of the one who asked.
    Closed,
    /// The connection has ended on a byte that selects nothing.
    Failed,
}

/// What has just happened on the side that answers.
#[derive(Copy, Clone, Debug, PartialEq, Eq, Structural)]
pub enum ResponderEvent {
    /// The action asked for is done, with nothing to report.
    Done,
    /// This selector byte was received.
    Selector(u8),
    /// The evaluation gave a value (`true`) or a failure (`false`).
    Evaluated(bool),
}

/// What the side that answers does next.
#[derive(Copy, Clone, Debug, PartialEq, Eq, Structural)]
pub enum ResponderAction {
    /// Receive a selector byte.
    ReceiveSelector,
    /// Receive the text of a formula.
    ReceiveFormula,
    /// Receive the list of identifiers and values.
    ReceiveValues,
    /// Evaluate the formula on values of the width.
    Evaluate(Width),
    /// Send the outcome of the evaluation.
    SendOutcome,
    /// End the connection.
    Close,
    /// Give the connection up as broken.
    Abort,
}

/// The state and the action that follow a state and an event; `None` where
/// the event has no place in the state.
///
/// A failure that is sent back leads to the next formula on the same width,
/// with no selector in between; a value that is sent back leads to the next
/// selector.
pub open spec fn responder_next(state: ResponderState, event: ResponderEvent) -> Option<
    (ResponderState, ResponderAction),
> {
    match (state, event) {
        (ResponderState::AwaitingKey, ResponderEvent::Done) => Some(
            (ResponderState::AwaitingSelector, ResponderAction::ReceiveSelector),
        ),
        (ResponderState::AwaitingSelector, ResponderEvent::Selector(byte)) => match Choice::of_selector(
            byte,
        ) {
            None => Some((ResponderState::Failed, ResponderAction::Abort)),
            Some(Choice::Disconnect) => Some((ResponderState::Closed, ResponderAction::Close)),
            Some(Choice::Evaluate(width)) => Some(
                (ResponderState::Serving(width, Service::Formula), ResponderAction::ReceiveFormula),
            ),
        },
        (ResponderState::Serving(width, Service::Formula), ResponderEvent::Done) => Some(
            (ResponderState::Serving(width, Service::Values), ResponderAction::ReceiveValues),
        ),
        (ResponderState::Serving(width, Service::Values), ResponderEvent::Done) => Some(
            (ResponderState::Serving(width, Service::Evaluate), ResponderAction::Evaluate(width)),
        ),
        (ResponderState::Serving(width, Service::Evaluate), ResponderEvent::Evaluated(success)) => Some(
            (ResponderState::Serving(width, Service::Reply(success)), ResponderAction::SendOutcome),
        ),
        (ResponderState::Serving(width, Service::Reply(success)), ResponderEvent::Done) => if success {
            Some((ResponderState::AwaitingSelector, ResponderAction::ReceiveSelector))
        } else {
            Some(
                (ResponderState::Serving(width, Service::Formula), ResponderAction::ReceiveFormula),
            )
        },
        _ => None,
    }
}

/// The state in which a connection begins; the evaluation key is to be
/// received and installed.
pub fn responder_start() -> (state: ResponderState)
    ensures
        state == ResponderState::AwaitingKey,
{
    ResponderState::AwaitingKey
}

/// Decides what the side that answers does next.
pub fn responder_step(state: ResponderState, event: ResponderEvent) -> (r: Option<
    (ResponderState, ResponderAction),
>)
    ensures
        r == responder_next(state, event),
{
    match state {
        ResponderState::AwaitingKey => match event {
            ResponderEvent::Done => Some(
                (ResponderState::AwaitingSelector, ResponderAction::ReceiveSelector),
            ),
            _ => None,
        },
        ResponderState::AwaitingSelector => match event {
            ResponderEvent::Selector(byte) => match Choice::from_selector(byte) {
                None => Some((ResponderState::Failed, ResponderAction::Abort)),
                Some(Choice::Disconnect) => Some((ResponderState::Closed, ResponderAction::Close)),
                Some(Choice::Evaluate(width)) => Some(
                    (
                        ResponderState::Serving(width, Service::Formula),
                        ResponderAction::ReceiveFormula,
                    ),
                ),
            },
            _ => None,
        },
        ResponderState::Serving(width, service) => match (service, event) {
            (Service::Formula, ResponderEvent::Done) => Some(
                (ResponderState::Serving(width, Service::Values), ResponderAction::ReceiveValues),
            ),
            (Service::Values, ResponderEvent::Done) => Some(
                (
                    ResponderState::Serving(width, Service::Evaluate),
                    ResponderAction::Evaluate(width),
                ),
            ),
            (Service::Evaluate, ResponderEvent::Evaluated(success)) => Some(
                (
                    ResponderState::Serving(width, Service::Reply(success)),
                    ResponderAction::SendOutcome,
                ),
            ),
            (Service::Reply(success), ResponderEvent::Done) => if success {
                Some((ResponderState::AwaitingSelector, ResponderAction::ReceiveSelector))
            } else {
                Some(
                    (
                        ResponderState::Serving(width, Service::Formula),
                        ResponderAction::ReceiveFormula,
                    ),
                )
            },
            _ => None,
        },
        ResponderState::Closed => None,
        ResponderState::Failed => None,
    }
}

/// A failed evaluation ends neither the connection nor the round: once the
/// failure is sent, the next formula is awaited on the same width.
pub proof fn lemma_failure_keeps_the_round(width: Width)
    ensures
        responder_next(
            ResponderState::Serving(width, Service::Evaluate),
            ResponderEvent::Evaluated(false),
        ) == Some(
            (ResponderState::Serving(width, Service::Reply(false)), ResponderAction::SendOutcome),
        ),
        responder_next(ResponderState::Serving(width, Service::Reply(false)), ResponderEvent::Done)
            == Some(
            (ResponderState::Serving(width, Service::Formula), ResponderAction::ReceiveFormula),
        ),
{
}

/// A selector is read only between rounds: a step leads to the wait for a
/// selector only from the wait for the key and from the sending of a value.
pub proof fn lemma_selector_is_read_between_rounds(
    state: ResponderState,
    event: ResponderEvent,
    next: ResponderState,
)
    requires
        responder_next(state, event) == Some((next, ResponderAction::ReceiveSelector)),
    ensures
        next == ResponderState::AwaitingSelector,
        state == ResponderState::AwaitingKey || (exists|width: Width|
            state == ResponderState::Serving(width, Service::Reply(true))),
{
}

/// The connection ends only on a selector byte: by the wish of the one who
/// asked where the byte is zero, as broken where the byte is above two.
pub proof fn lemma_connection_ends_on_a_selector(
    state: ResponderState,
    event: ResponderEvent,
    next: ResponderState,
    action: ResponderAction,
)
    requires
        responder_next(state, event) == Some((next, action)),
        next == ResponderState::Closed || next == ResponderState::Failed,
    ensures
        state == ResponderState::AwaitingSelector,
        event matches ResponderEvent::Selector(byte) && (if byte == 0 {
            next == ResponderState::Closed && action == ResponderAction::Close
        } else {
            byte > 2 && next == ResponderState::Failed && action == ResponderAction::Abort
        }),
{
}

} // verus!
