use commons::{
    exit_answer, fhe_computation, secure_supports, Operator, initiator_start, initiator_step, responder_start, responder_step, Choice, InitiatorAction,
    InitiatorEvent, InitiatorState, ResponderAction, ResponderEvent, ResponderState, Round,
    Service, TokenizationError, Width,
};

#[test]
fn selector_bytes() {
    assert_eq!(Choice::Disconnect.selector(), 0);
    assert_eq!(Choice::Evaluate(Width::Narrow).selector(), 1);
    assert_eq!(Choice::Evaluate(Width::Wide).selector(), 2);
    assert_eq!(Choice::from_selector(0), Some(Choice::Disconnect));
    assert_eq!(Choice::from_selector(1), Some(Choice::Evaluate(Width::Narrow)));
    assert_eq!(Choice::from_selector(2), Some(Choice::Evaluate(Width::Wide)));
    for byte in 3..=255u8 {
        assert_eq!(Choice::from_selector(byte), None);
    }
}

#[test]
fn widths() {
    assert_eq!(Width::Narrow.bits(), 3);
    assert_eq!(Width::Wide.bits(), 16);
    assert_eq!(Width::Narrow.modulus(), 1 << 3);
    assert_eq!(Width::Wide.modulus(), 1 << 16);
    assert_eq!(Width::Narrow.reduce(20), 4);
    assert_eq!(Width::Narrow.reduce(7), 7);
    assert_eq!(Width::Wide.reduce(65536 + 5), 5);
    assert_eq!(Width::Wide.reduce(u32::MAX), 65535);
}

fn step(state: InitiatorState, event: InitiatorEvent) -> (InitiatorState, InitiatorAction) {
    initiator_step(state, event).unwrap()
}

#[test]
fn initiator_sends_the_key_then_asks_for_a_choice() {
    let state = initiator_start();
    assert_eq!(state, InitiatorState::Connecting);
    let (state, action) = step(state, InitiatorEvent::Done);
    assert_eq!(state, InitiatorState::KeyExchanged);
    assert!(matches!(action, InitiatorAction::SendKey));
    let (state, action) = step(state, InitiatorEvent::Done);
    assert_eq!(state, InitiatorState::SelectingWidth);
    assert!(matches!(action, InitiatorAction::AskChoice));
}

#[test]
fn initiator_keeps_an_invalid_choice_off_the_wire() {
    for number in 3..=255u8 {
        let (state, action) = step(InitiatorState::SelectingWidth, InitiatorEvent::Chosen(number));
        assert_eq!(state, InitiatorState::SelectingWidth);
        assert!(matches!(action, InitiatorAction::RejectChoice(n) if n == number));
    }
}

#[test]
fn initiator_disconnects_on_zero() {
    let (state, action) = step(InitiatorState::SelectingWidth, InitiatorEvent::Chosen(0));
    assert_eq!(state, InitiatorState::Disconnected);
    assert!(matches!(action, InitiatorAction::SendSelector(0)));
    assert!(initiator_step(state, InitiatorEvent::Done).is_none());
    assert!(initiator_step(state, InitiatorEvent::Chosen(1)).is_none());
}

#[test]
fn initiator_runs_a_narrow_round() {
    let (state, action) = step(InitiatorState::SelectingWidth, InitiatorEvent::Chosen(1));
    assert_eq!(state, InitiatorState::EvaluatingWidth(Width::Narrow, Round::Announce));
    assert!(matches!(action, InitiatorAction::SendSelector(1)));
    let (state, action) = step(state, InitiatorEvent::Done);
    assert_eq!(state, InitiatorState::EvaluatingWidth(Width::Narrow, Round::Formula));
    assert!(matches!(action, InitiatorAction::AskFormula));
    let (state, action) = step(state, InitiatorEvent::Formula(String::from("(a + b) * c\n")));
    assert_eq!(state, InitiatorState::EvaluatingWidth(Width::Narrow, Round::Values));
    match action {
        InitiatorAction::AskValues(idents) => {
            let names: Vec<&str> = idents.iter().map(|i| i.as_str()).collect();
            assert_eq!(names, vec!["a", "b", "c"]);
        }
        other => panic!("unexpected action {:?}", other),
    }
    let (state, action) = step(state, InitiatorEvent::Done);
    assert_eq!(state, InitiatorState::EvaluatingWidth(Width::Narrow, Round::SendFormula));
    assert!(matches!(action, InitiatorAction::SendFormula));
    let (state, action) = step(state, InitiatorEvent::Done);
    assert_eq!(state, InitiatorState::EvaluatingWidth(Width::Narrow, Round::SendValues));
    assert!(matches!(action, InitiatorAction::SendValues));
    let (state, action) = step(state, InitiatorEvent::Done);
    assert_eq!(state, InitiatorState::EvaluatingWidth(Width::Narrow, Round::Outcome));
    assert!(matches!(action, InitiatorAction::ReceiveOutcome));
    let (state, action) = step(state, InitiatorEvent::Outcome(true));
    assert_eq!(state, InitiatorState::EvaluatingWidth(Width::Narrow, Round::Verify));
    assert!(matches!(action, InitiatorAction::Verify(Width::Narrow)));
    let (state, action) = step(state, InitiatorEvent::Done);
    assert_eq!(state, InitiatorState::SelectingWidth);
    assert!(matches!(action, InitiatorAction::AskChoice));
}

#[test]
fn initiator_sends_nothing_for_a_text_that_is_no_formula() {
    let state = InitiatorState::EvaluatingWidth(Width::Wide, Round::Formula);
    let (next, action) = step(state, InitiatorEvent::Formula(String::from("a = b")));
    assert_eq!(next, state);
    assert!(matches!(
        action,
        InitiatorAction::RejectFormula(TokenizationError::MissingExpectedChar {
            expected: '=',
            actual: ' '
        })
    ));
    let (next, action) = step(state, InitiatorEvent::Formula(String::from("a + 2")));
    assert_eq!(next, state);
    assert!(matches!(action, InitiatorAction::RejectFormula(TokenizationError::IllegalChar('2'))));
}

#[test]
fn initiator_asks_for_another_formula_after_a_failure() {
    let state = InitiatorState::EvaluatingWidth(Width::Wide, Round::Outcome);
    let (state, action) = step(state, InitiatorEvent::Outcome(false));
    assert_eq!(state, InitiatorState::EvaluatingWidth(Width::Wide, Round::Formula));
    assert!(matches!(action, InitiatorAction::ShowFailure));
    let (state, action) = step(state, InitiatorEvent::Formula(String::from("a + b")));
    assert_eq!(state, InitiatorState::EvaluatingWidth(Width::Wide, Round::Values));
    assert!(matches!(action, InitiatorAction::AskValues(_)));
}

#[test]
fn initiator_refuses_events_out_of_place() {
    assert!(initiator_step(InitiatorState::Connecting, InitiatorEvent::Chosen(1)).is_none());
    assert!(initiator_step(InitiatorState::SelectingWidth, InitiatorEvent::Done).is_none());
    assert!(initiator_step(InitiatorState::SelectingWidth, InitiatorEvent::Formula(String::from("a"))).is_none());
    assert!(initiator_step(InitiatorState::KeyExchanged, InitiatorEvent::Outcome(true)).is_none());
    let awaiting = InitiatorState::EvaluatingWidth(Width::Narrow, Round::Outcome);
    assert!(initiator_step(awaiting, InitiatorEvent::Done).is_none());
    let entering = InitiatorState::EvaluatingWidth(Width::Narrow, Round::Formula);
    assert!(initiator_step(entering, InitiatorEvent::Done).is_none());
    assert!(initiator_step(entering, InitiatorEvent::Outcome(true)).is_none());
}

fn serve(state: ResponderState, event: ResponderEvent) -> (ResponderState, ResponderAction) {
    responder_step(state, event).unwrap()
}

#[test]
fn responder_serves_a_narrow_round() {
    let state = responder_start();
    assert_eq!(state, ResponderState::AwaitingKey);
    assert_eq!(
        serve(state, ResponderEvent::Done),
        (ResponderState::AwaitingSelector, ResponderAction::ReceiveSelector)
    );
    let (state, action) = serve(ResponderState::AwaitingSelector, ResponderEvent::Selector(1));
    assert_eq!(state, ResponderState::Serving(Width::Narrow, Service::Formula));
    assert_eq!(action, ResponderAction::ReceiveFormula);
    let (state, action) = serve(state, ResponderEvent::Done);
    assert_eq!(state, ResponderState::Serving(Width::Narrow, Service::Values));
    assert_eq!(action, ResponderAction::ReceiveValues);
    let (state, action) = serve(state, ResponderEvent::Done);
    assert_eq!(state, ResponderState::Serving(Width::Narrow, Service::Evaluate));
    assert_eq!(action, ResponderAction::Evaluate(Width::Narrow));
    let (state, action) = serve(state, ResponderEvent::Evaluated(true));
    assert_eq!(state, ResponderState::Serving(Width::Narrow, Service::Reply(true)));
    assert_eq!(action, ResponderAction::SendOutcome);
    let (state, action) = serve(state, ResponderEvent::Done);
    assert_eq!(state, ResponderState::AwaitingSelector);
    assert_eq!(action, ResponderAction::ReceiveSelector);
}

#[test]
fn responder_awaits_a_corrected_formula_after_a_failure() {
    let state = ResponderState::Serving(Width::Wide, Service::Evaluate);
    let (state, action) = serve(state, ResponderEvent::Evaluated(false));
    assert_eq!(state, ResponderState::Serving(Width::Wide, Service::Reply(false)));
    assert_eq!(action, ResponderAction::SendOutcome);
    let (state, action) = serve(state, ResponderEvent::Done);
    assert_eq!(state, ResponderState::Serving(Width::Wide, Service::Formula));
    assert_eq!(action, ResponderAction::ReceiveFormula);
    let (state, _) = serve(state, ResponderEvent::Done);
    let (state, _) = serve(state, ResponderEvent::Done);
    let (state, _) = serve(state, ResponderEvent::Evaluated(true));
    let (state, action) = serve(state, ResponderEvent::Done);
    assert_eq!(state, ResponderState::AwaitingSelector);
    assert_eq!(action, ResponderAction::ReceiveSelector);
}

#[test]
fn responder_closes_on_zero_and_fails_on_an_unknown_selector() {
    assert_eq!(
        serve(ResponderState::AwaitingSelector, ResponderEvent::Selector(0)),
        (ResponderState::Closed, ResponderAction::Close)
    );
    assert_eq!(
        serve(ResponderState::AwaitingSelector, ResponderEvent::Selector(2)),
        (ResponderState::Serving(Width::Wide, Service::Formula), ResponderAction::ReceiveFormula)
    );
    for byte in 3..=255u8 {
        assert_eq!(
            serve(ResponderState::AwaitingSelector, ResponderEvent::Selector(byte)),
            (ResponderState::Failed, ResponderAction::Abort)
        );
    }
    assert_eq!(responder_step(ResponderState::Closed, ResponderEvent::Done), None);
    assert_eq!(responder_step(ResponderState::Failed, ResponderEvent::Selector(1)), None);
}

#[test]
fn responder_refuses_events_out_of_place() {
    assert_eq!(responder_step(ResponderState::AwaitingKey, ResponderEvent::Selector(1)), None);
    assert_eq!(responder_step(ResponderState::AwaitingSelector, ResponderEvent::Done), None);
    let evaluating = ResponderState::Serving(Width::Narrow, Service::Evaluate);
    assert_eq!(responder_step(evaluating, ResponderEvent::Done), None);
    let receiving = ResponderState::Serving(Width::Narrow, Service::Formula);
    assert_eq!(responder_step(receiving, ResponderEvent::Evaluated(true)), None);
}

#[test]
fn operator_support_of_the_secure_types() {
    let all = [
        Operator::Multiplication,
        Operator::Division,
        Operator::Addition,
        Operator::Subtraction,
        Operator::BitLeftShift,
        Operator::BitRightShift,
        Operator::Less,
        Operator::Greater,
        Operator::LessEqual,
        Operator::GreaterEqual,
        Operator::EqualEqual,
        Operator::BitAnd,
        Operator::BitOr,
        Operator::BitXor,
    ];
    let narrow: Vec<bool> = all.iter().map(|op| secure_supports(Width::Narrow, *op)).collect();
    assert_eq!(
        narrow,
        vec![true, true, true, true, false, false, true, true, true, true, true, true, true, true]
    );
    let wide: Vec<bool> = all.iter().map(|op| secure_supports(Width::Wide, *op)).collect();
    assert_eq!(
        wide,
        vec![true, false, true, true, false, false, false, false, false, false, false, true, true, true]
    );
}

#[test]
fn values_that_fit_a_width() {
    assert!(Width::Narrow.fits(0));
    assert!(Width::Narrow.fits(7));
    assert!(!Width::Narrow.fits(8));
    assert!(Width::Wide.fits(65535));
    assert!(!Width::Wide.fits(65536));
}

#[test]
fn answers_to_the_question_whether_to_exit() {
    assert_eq!(exit_answer(""), Some(true));
    assert_eq!(exit_answer("Y"), Some(true));
    assert_eq!(exit_answer("y"), Some(true));
    assert_eq!(exit_answer("n"), Some(false));
    assert_eq!(exit_answer("N"), None);
    assert_eq!(exit_answer("yes"), None);
    assert_eq!(exit_answer(" "), None);
}

#[test]
fn fixed_computation_adds_then_multiplies() {
    assert_eq!(fhe_computation(&2u32, &3u32, &4u32), Some(20));
    assert_eq!(fhe_computation(&u32::MAX, &1u32, &7u32), Some(0));
}
