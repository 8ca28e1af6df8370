//! The decisions of the side that asks: what to do next, given where the
//! session stands and what has just happened.

use vstd::prelude::*;
use crate::ident::Ident;
use crate::token::Lexeme;
use crate::tokenizer::{tokenize, tokenize_spec, TokenizationError};
use crate::unique::{ascending, lists, mentions, names, unique_idents};
use crate::width::{Choice, Width};

verus! {

/// Where a round of evaluation stands on the side that asks.
#[derive(Copy, Clone, Debug, PartialEq, Eq, Structural)]
pub enum Round {
    /// The selector byte is being sent.
    Announce,
    /// A formula is awaited from the user.
    Formula,
    /// The values of the formula's identifiers are being collected.
    Values,
    /// The text of the formula is being sent.
    SendFormula,
    /// The list of identifiers and values is being sent.
    SendValues,
    /// The outcome is awaited from the responder.
    Outcome,
    /// The result is being checked against the plain computation.
    Verify,
}

/// Where a session stands on the side that asks.
#[derive(Copy, Clone, Debug, PartialEq, Eq, Structural)]
pub enum InitiatorState {
    /// The connection is being opened.
    Connecting,
    /// The evaluation key is on its way to the responder.
    KeyExchanged,
    /// The user selects a width or the end of the session.
    SelectingWidth,
    /// Formulas are evaluated on operands of one width.
    EvaluatingWidth(Width, Round),
    /// The session has ended.
    Disconnected,
}

/// What has just happened on the side that asks.
#[derive(Debug)]
pub enum InitiatorEvent {
    /// The action asked for is done, with nothing to report.
    Done,
    /// The user entered this number as the choice.
    Chosen(u8),
    /// The user entered this text as the formula.
    Formula(String),
    /// The responder reported success (`true`) or a failure (`false`).
    Outcome(bool),
}

/// What the side that asks does next.
#[derive(Debug)]
pub enum InitiatorAction {
    /// Send the evaluation key.
    SendKey,
    /// Ask the user for a choice: to disconnect, or one of the two widths.
    AskChoice,
    /// Tell the user that this number is no choice, and ask again.
    RejectChoice(u8),
    /// Send this selector byte.
    SendSelector(u8),
    /// Ask the user for a formula.
    AskFormula,
    /// Tell the user why the text is no formula, and ask for another.
    RejectFormula(TokenizationError),
    /// Obtain a secret value for each of these identifiers.
    AskValues(Vec<Ident>),
    /// Send the text of the formula.
    SendFormula,
    /// Send the list of identifiers and values.
    SendValues,
    /// Receive the outcome.
    ReceiveOutcome,
    /// Show the failure that the responder reported, and ask for another formula.
    ShowFailure,
    /// Decrypt the result, compute the formula on the plain values of the
    /// width, and show both.
    Verify(Width),
}

/// The state and the action that follow a state and an event that carries
/// no text; `None` where the event has no place in the state.
pub open spec fn initiator_next(state: InitiatorState, event: InitiatorEvent) -> Option<
    (InitiatorState, InitiatorAction),
> {
    match (state, event) {
        (InitiatorState::Connecting, InitiatorEvent::Done) => Some(
            (InitiatorState::KeyExchanged, InitiatorAction::SendKey),
        ),
        (InitiatorState::KeyExchanged, InitiatorEvent::Done) => Some(
            (InitiatorState::SelectingWidth, InitiatorAction::AskChoice),
        ),
        (InitiatorState::SelectingWidth, InitiatorEvent::Chosen(number)) => match Choice::of_selector(
            number,
        ) {
            None => Some((InitiatorState::SelectingWidth, InitiatorAction::RejectChoice(number))),
            Some(Choice::Disconnect) => Some(
                (InitiatorState::Disconnected, InitiatorAction::SendSelector(number)),
            ),
            Some(Choice::Evaluate(width)) => Some(
                (
                    InitiatorState::EvaluatingWidth(width, Round::Announce),
                    InitiatorAction::SendSelector(number),
                ),
            ),
        },
        (InitiatorState::EvaluatingWidth(width, round), InitiatorEvent::Done) => match round {
            Round::Announce => Some(
                (InitiatorState::EvaluatingWidth(width, Round::Formula), InitiatorAction::AskFormula),
            ),
            Round::Values => Some(
                (
                    InitiatorState::EvaluatingWidth(width, Round::SendFormula),
                    InitiatorAction::SendFormula,
                ),
            ),
            Round::SendFormula => Some(
                (
                    InitiatorState::EvaluatingWidth(width, Round::SendValues),
                    InitiatorAction::SendValues,
                ),
            ),
            Round::SendValues => Some(
                (
                    InitiatorState::EvaluatingWidth(width, Round::Outcome),
                    InitiatorAction::ReceiveOutcome,
                ),
            ),
            Round::Verify => Some((InitiatorState::SelectingWidth, InitiatorAction::AskChoice)),
            _ => None,
        },
        (
            InitiatorState::EvaluatingWidth(width, Round::Outcome),
            InitiatorEvent::Outcome(success),
        ) => if success {
            Some(
                (
                    InitiatorState::EvaluatingWidth(width, Round::Verify),
                    InitiatorAction::Verify(width),
                ),
            )
        } else {
            Some(
                (InitiatorState::EvaluatingWidth(width, Round::Formula), InitiatorAction::ShowFailure),
            )
        },
        _ => None,
    }
}

/// Whether `r` is what follows the state and the event.
///
/// A text that the user entered is tokenized: a text that is no formula
/// leaves the state as it is, so that nothing is sent; a formula leads to the
/// collection of a value for each identifier that it mentions, once each,
/// in ascending order. Every other event goes by [`initiator_next`].
pub open spec fn initiator_moves(
    state: InitiatorState,
    event: InitiatorEvent,
    r: Option<(InitiatorState, InitiatorAction)>,
) -> bool {
    match event {
        InitiatorEvent::Formula(text) => match state {
            InitiatorState::EvaluatingWidth(width, Round::Formula) => match tokenize_spec(text@) {
                Err(e) => r == Some((state, InitiatorAction::RejectFormula(e))),
                Ok(tokens) => {
                    &&& r matches Some((next, InitiatorAction::AskValues(idents)))
                    &&& next == InitiatorState::EvaluatingWidth(width, Round::Values)
                    &&& asks_for(idents@, tokens)
                },
            },
            _ => r is None,
        },
        _ => r == initiator_next(state, event),
    }
}

/// Whether `idents` are the identifiers that `tokens` mention, each once,
/// in ascending order.
pub open spec fn asks_for(idents: Seq<Ident>, tokens: Seq<Lexeme>) -> bool {
    &&& ascending(names(idents))
    &&& forall|name: Seq<char>| lists(names(idents), name) <==> mentions(tokens, name)
}

/// The state in which a session begins; the connection is to be opened.
pub fn initiator_start() -> (state: InitiatorState)
    ensures
        state == InitiatorState::Connecting,
{
    InitiatorState::Connecting
}

/// Decides what the side that asks does next.
pub fn initiator_step(state: InitiatorState, event: InitiatorEvent) -> (r: Option<
    (InitiatorState, InitiatorAction),
>)
    ensures
        initiator_moves(state, event, r),
{
    match event {
        InitiatorEvent::Formula(text) => match state {
            InitiatorState::EvaluatingWidth(width, Round::Formula) => match tokenize(
                text.as_str(),
            ) {
                Err(e) => Some((state, InitiatorAction::RejectFormula(e))),
                Ok(tokens) => {
                    let idents = unique_idents(tokens);
                    Some(
                        (
                            InitiatorState::EvaluatingWidth(width, Round::Values),
                            InitiatorAction::AskValues(idents),
                        ),
                    )
                },
            },
            _ => None,
        },
        InitiatorEvent::Done => match state {
            InitiatorState::Connecting => Some(
                (InitiatorState::KeyExchanged, InitiatorAction::SendKey),
            ),
            InitiatorState::KeyExchanged => Some(
                (InitiatorState::SelectingWidth, InitiatorAction::AskChoice),
            ),
            InitiatorState::EvaluatingWidth(width, round) => match round {
                Round::Announce => Some(
                    (
                        InitiatorState::EvaluatingWidth(width, Round::Formula),
                        InitiatorAction::AskFormula,
                    ),
                ),
                Round::Values => Some(
                    (
                        InitiatorState::EvaluatingWidth(width, Round::SendFormula),
                        InitiatorAction::SendFormula,
                    ),
                ),
                Round::SendFormula => Some(
                    (
                        InitiatorState::EvaluatingWidth(width, Round::SendValues),
                        InitiatorAction::SendValues,
                    ),
                ),
                Round::SendValues => Some(
                    (
                        InitiatorState::EvaluatingWidth(width, Round::Outcome),
                        InitiatorAction::ReceiveOutcome,
                    ),
                ),
                Round::Verify => Some((InitiatorState::SelectingWidth, InitiatorAction::AskChoice)),
                _ => None,
            },
            _ => None,
        },
        InitiatorEvent::Chosen(number) => match state {
            InitiatorState::SelectingWidth => match Choice::from_selector(number) {
                None => Some(
                    (InitiatorState::SelectingWidth, InitiatorAction::RejectChoice(number)),
                ),
                Some(Choice::Disconnect) => Some(
                    (InitiatorState::Disconnected, InitiatorAction::SendSelector(number)),
                ),
                Some(Choice::Evaluate(width)) => Some(
                    (
                        InitiatorState::EvaluatingWidth(width, Round::Announce),
                        InitiatorAction::SendSelector(number),
                    ),
                ),
            },
            _ => None,
        },
        InitiatorEvent::Outcome(success) => match state {
            InitiatorState::EvaluatingWidth(width, Round::Outcome) => if success {
                Some(
                    (
                        InitiatorState::EvaluatingWidth(width, Round::Verify),
                        InitiatorAction::Verify(width),
                    ),
                )
            } else {
                Some(
                    (
                        InitiatorState::EvaluatingWidth(width, Round::Formula),
                        InitiatorAction::ShowFailure,
                    ),
                )
            },
            _ => None,
        },
    }
}

/// Only a byte that stands for a choice is ever sent as the selector, and it
/// is the number that the user has just entered while selecting.
pub proof fn lemma_selector_is_a_choice(
    state: InitiatorState,
    event: InitiatorEvent,
    next: InitiatorState,
    byte: u8,
)
    requires
        initiator_moves(state, event, Some((next, InitiatorAction::SendSelector(byte)))),
    ensures
        byte <= 2,
        state == InitiatorState::SelectingWidth,
        event == InitiatorEvent::Chosen(byte),
        match Choice::of_selector(byte) {
            Some(Choice::Disconnect) => next == InitiatorState::Disconnected,
            Some(Choice::Evaluate(width)) => next == InitiatorState::EvaluatingWidth(
                width,
                Round::Announce,
            ),
            None => false,
        },
{
}

/// The evaluation key is sent when the connection has been opened and at no
/// other time, and no step leads back to the opening of the connection: the
/// key is sent once in a session.
pub proof fn lemma_key_is_sent_once(
    state: InitiatorState,
    event: InitiatorEvent,
    next: InitiatorState,
    action: InitiatorAction,
)
    requires
        initiator_moves(state, event, Some((next, action))),
    ensures
        action is SendKey <==> state == InitiatorState::Connecting,
        next != InitiatorState::Connecting,
{
}

/// A text that is no formula and a number that is no choice leave the
/// session where it stands: nothing is sent for them.
pub proof fn lemma_rejected_input_sends_nothing(
    state: InitiatorState,
    event: InitiatorEvent,
    next: InitiatorState,
    action: InitiatorAction,
)
    requires
        initiator_moves(state, event, Some((next, action))),
        action is RejectFormula || action is RejectChoice,
    ensures
        next == state,
        event matches InitiatorEvent::Chosen(number) ==> number > 2,
        event matches InitiatorEvent::Formula(text) ==> tokenize_spec(text@) is Err,
{
}

/// A session that has ended takes no further step.
pub proof fn lemma_disconnected_is_final(
    event: InitiatorEvent,
    r: Option<(InitiatorState, InitiatorAction)>,
)
    requires
        initiator_moves(InitiatorState::Disconnected, event, r),
    ensures
        r is None,
{
}

} // verus!
