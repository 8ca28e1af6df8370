use commons::{
    answer, evaluate, execute, execute_plain, expected_result, to_postfix, to_variables_map,
    tokenize, tokenize_postfix, ArithmeticType, ExecutionError, FormulaError, Ident, Operator,
    Token, Width,
};

fn bind(pairs: &[(&str, u32)]) -> Vec<(Ident, u32)> {
    pairs.iter().map(|(name, value)| (Ident::new(name), *value)).collect()
}

fn value_of(text: &str, pairs: &[(&str, u32)]) -> Result<u32, ExecutionError> {
    execute(to_postfix(tokenize(text).unwrap()).unwrap(), bind(pairs))
}

#[test]
fn plain_evaluation_matches_direct_computation() {
    let pairs = [("a", 1), ("b", 17), ("c", 5), ("d", 3), ("e", 10)];
    assert_eq!(value_of("a * b - (c + d) + e", &pairs), Ok((1 * 17) - (5 + 3) + 10));
    assert_eq!(value_of("a * b - (c + d) + e", &pairs), Ok(19));
}

#[test]
fn first_popped_operand_is_the_right_one() {
    let pairs = [("a", 20), ("b", 4)];
    assert_eq!(value_of("a - b", &pairs), Ok(16));
    assert_eq!(value_of("a / b", &pairs), Ok(5));
    assert_eq!(value_of("b / a", &pairs), Ok(0));
    assert_eq!(value_of("a < b", &pairs), Ok(0));
    assert_eq!(value_of("b < a", &pairs), Ok(1));
    assert_eq!(value_of("a << b", &pairs), Ok(320));
    assert_eq!(value_of("a >> b", &pairs), Ok(1));
}

#[test]
fn every_operator_on_plain_integers() {
    let a: u32 = 12;
    let b: u32 = 5;
    assert_eq!(a.apply_operator(&b, Operator::Multiplication), Some(60));
    assert_eq!(a.apply_operator(&b, Operator::Division), Some(2));
    assert_eq!(a.apply_operator(&b, Operator::Addition), Some(17));
    assert_eq!(a.apply_operator(&b, Operator::Subtraction), Some(7));
    assert_eq!(a.apply_operator(&b, Operator::BitLeftShift), Some(384));
    assert_eq!(a.apply_operator(&b, Operator::BitRightShift), Some(0));
    assert_eq!(a.apply_operator(&b, Operator::Less), Some(0));
    assert_eq!(a.apply_operator(&b, Operator::Greater), Some(1));
    assert_eq!(a.apply_operator(&b, Operator::LessEqual), Some(0));
    assert_eq!(a.apply_operator(&b, Operator::GreaterEqual), Some(1));
    assert_eq!(a.apply_operator(&b, Operator::EqualEqual), Some(0));
    assert_eq!(a.apply_operator(&a, Operator::EqualEqual), Some(1));
    assert_eq!(a.apply_operator(&a, Operator::LessEqual), Some(1));
    assert_eq!(a.apply_operator(&a, Operator::GreaterEqual), Some(1));
    assert_eq!(a.apply_operator(&b, Operator::BitAnd), Some(4));
    assert_eq!(a.apply_operator(&b, Operator::BitOr), Some(13));
    assert_eq!(a.apply_operator(&b, Operator::BitXor), Some(9));
}

#[test]
fn plain_arithmetic_wraps_around() {
    let max = u32::MAX;
    assert_eq!(max.apply_operator(&1, Operator::Addition), Some(0));
    assert_eq!(0u32.apply_operator(&1, Operator::Subtraction), Some(u32::MAX));
    assert_eq!(3u32.apply_operator(&5, Operator::Subtraction), Some(4294967294));
    assert_eq!(max.apply_operator(&2, Operator::Multiplication), Some(4294967294));
    assert_eq!(65536u32.apply_operator(&65536, Operator::Multiplication), Some(0));
}

#[test]
fn shift_amount_is_taken_modulo_the_width() {
    assert_eq!(1u32.apply_operator(&32, Operator::BitLeftShift), Some(1));
    assert_eq!(1u32.apply_operator(&33, Operator::BitLeftShift), Some(2));
    assert_eq!(8u32.apply_operator(&35, Operator::BitRightShift), Some(1));
    assert_eq!(1u32.apply_operator(&31, Operator::BitLeftShift), Some(2147483648));
}

#[test]
fn plain_division_by_zero_gives_zero() {
    assert_eq!(7u32.apply_operator(&0, Operator::Division), Some(0));
    assert_eq!(value_of("a / b", &[("a", 7), ("b", 0)]), Ok(0));
}

#[test]
fn unbound_identifier_is_named() {
    assert_eq!(
        value_of("a + b", &[("a", 1)]),
        Err(ExecutionError::VariableNotDefined(Ident::new("b")))
    );
    assert_eq!(
        value_of("a + b", &[("b", 1)]),
        Err(ExecutionError::VariableNotDefined(Ident::new("a")))
    );
    assert_eq!(
        value_of("a * b - (c + d) + e", &[("a", 1), ("b", 17), ("c", 5), ("e", 10)]),
        Err(ExecutionError::VariableNotDefined(Ident::new("d")))
    );
}

#[test]
fn left_operand_is_looked_up_first() {
    assert_eq!(
        value_of("a + b", &[]),
        Err(ExecutionError::VariableNotDefined(Ident::new("a")))
    );
}

#[test]
fn lone_unbound_identifier_is_named() {
    assert_eq!(
        value_of("a", &[]),
        Err(ExecutionError::VariableNotDefined(Ident::new("a")))
    );
    assert_eq!(
        value_of("(a)", &[("b", 1)]),
        Err(ExecutionError::VariableNotDefined(Ident::new("a")))
    );
    assert_eq!(answer("a", bind(&[])), Err(String::from("Variable 'a' was not defined")));
}

#[test]
fn lone_bound_identifier_is_its_value() {
    assert_eq!(value_of("a", &[("a", 42)]), Ok(42));
}

#[test]
fn wrong_number_of_operands_is_an_invalid_computation() {
    assert_eq!(value_of("", &[]), Err(ExecutionError::InvalidComputation));
    assert_eq!(value_of("a b", &[("a", 1), ("b", 2)]), Err(ExecutionError::InvalidComputation));
    assert_eq!(value_of("+", &[]), Err(ExecutionError::InvalidComputation));
    assert_eq!(value_of("a +", &[("a", 1)]), Err(ExecutionError::InvalidComputation));
    assert_eq!(value_of("a + b c", &[("a", 1), ("b", 2), ("c", 3)]), Err(ExecutionError::InvalidComputation));
}

#[test]
fn identifier_may_be_used_more_than_once() {
    assert_eq!(value_of("a * a + a", &[("a", 3)]), Ok(12));
    assert_eq!(value_of("(a + b) * (a + b)", &[("a", 3), ("b", 4)]), Ok(49));
}

#[test]
fn last_binding_of_a_name_counts() {
    assert_eq!(value_of("a + b", &[("a", 1), ("b", 2), ("a", 10)]), Ok(12));
    let variables = to_variables_map(bind(&[("a", 1), ("b", 2), ("a", 10)]));
    assert_eq!(variables.get(&Ident::new("a")), Some(&10));
    assert_eq!(variables.get(&Ident::new("b")), Some(&2));
    assert_eq!(variables.get(&Ident::new("c")), None);
    assert!(variables.contains(&Ident::new("a")));
    assert!(!variables.contains(&Ident::new("c")));
    assert_eq!(variables.take(&Ident::new("b")), Some(2));
}

#[test]
fn names_of_digits_are_names_like_any_other() {
    // Intermediate results never take the place of a variable.
    let postfix = vec![
        Token::Ident(Ident::new("a")),
        Token::Ident(Ident::new("b")),
        Token::Operator(Operator::Addition),
        Token::Ident(Ident::new("0")),
        Token::Operator(Operator::Multiplication),
    ];
    assert_eq!(
        execute(postfix.clone(), bind(&[("a", 2), ("b", 3)])),
        Err(ExecutionError::VariableNotDefined(Ident::new("0")))
    );
    assert_eq!(execute(postfix, bind(&[("a", 2), ("b", 3), ("0", 7)])), Ok(35));
}

#[test]
fn plain_execution_agrees_with_the_general_one() {
    let pairs = [("a", 9), ("b", 4), ("c", 2)];
    for text in ["a - b * c", "(a - b) * c", "a / b / c", "a | b ^ c & a", "a >= b", "a == a"] {
        let postfix = tokenize_postfix(text).unwrap();
        assert_eq!(execute_plain(postfix.clone(), bind(&pairs)), execute(postfix, bind(&pairs)));
    }
    assert_eq!(execute_plain(tokenize_postfix("a - b * c").unwrap(), bind(&pairs)), Ok(1));
}

#[test]
fn evaluate_reports_every_kind_of_failure() {
    assert_eq!(evaluate("a + b", bind(&[("a", 1), ("b", 2)])).unwrap(), 3);
    assert!(matches!(
        evaluate("a # b", bind(&[])),
        Err(FormulaError::Tokenization(commons::TokenizationError::IllegalChar('#')))
    ));
    assert!(matches!(
        evaluate("(a", bind(&[("a", 1)])),
        Err(FormulaError::Transformation(commons::TransformationError::UnmatchedParen))
    ));
    assert!(matches!(
        evaluate("a + b", bind(&[("a", 1)])),
        Err(FormulaError::Execution(ExecutionError::VariableNotDefined(_)))
    ));
    assert!(matches!(
        evaluate("a b", bind(&[("a", 1), ("b", 2)])),
        Err(FormulaError::Execution(ExecutionError::InvalidComputation))
    ));
}

#[test]
fn answer_is_the_value_or_the_message() {
    assert_eq!(answer("(a + b) * c", bind(&[("a", 2), ("b", 3), ("c", 4)])), Ok(20));
    assert_eq!(answer("a + b", bind(&[("a", 2)])), Err(String::from("Variable 'b' was not defined")));
    assert_eq!(answer("a = b", bind(&[])), Err(String::from("Expected char '=', got ' ' instead")));
    assert_eq!(answer("a + b)", bind(&[])), Err(String::from("Unmatched set of parenthesis")));
    assert_eq!(answer("a b", bind(&[])), Err(String::from("Computation is not valid")));
}

#[test]
fn execution_error_messages() {
    assert_eq!(ExecutionError::InvalidComputation.message(), "Computation is not valid");
    assert_eq!(
        ExecutionError::OperatorNotSupported(Operator::BitRightShift).message(),
        "Operator BitRightShift is not supported by the type"
    );
    assert_eq!(
        ExecutionError::VariableNotDefined(Ident::new("x")).message(),
        "Variable 'x' was not defined"
    );
    assert_eq!(
        FormulaError::Execution(ExecutionError::InvalidComputation).message(),
        "Computation is not valid"
    );
    assert_eq!(
        ExecutionError::VariableNotDefined(Ident::new("x")).clone(),
        ExecutionError::VariableNotDefined(Ident::new("x"))
    );
}

/// A value type that knows addition only.
#[derive(Debug, PartialEq)]
struct AddOnly(u32);

impl ArithmeticType for AddOnly {
    // The two declarations are for the verifier and are never run.
    fn supports(_op: Operator) -> bool {
        unreachable!()
    }

    fn combines(&self, _rhs: &Self, _op: Operator, _out: Self) -> bool {
        unreachable!()
    }

    fn apply_operator(&self, rhs: &Self, op: Operator) -> Option<Self> {
        match op {
            Operator::Addition => Some(AddOnly(self.0 + rhs.0)),
            _ => None,
        }
    }
}

#[test]
fn declined_operator_is_reported() {
    let values = || vec![(Ident::new("a"), AddOnly(2)), (Ident::new("b"), AddOnly(3))];
    assert_eq!(execute(tokenize_postfix("a + b").unwrap(), values()), Ok(AddOnly(5)));
    assert_eq!(
        execute(tokenize_postfix("a >> b").unwrap(), values()),
        Err(ExecutionError::OperatorNotSupported(Operator::BitRightShift))
    );
    assert_eq!(
        answer("a >> b", values()),
        Err(String::from("Operator BitRightShift is not supported by the type"))
    );
    // The operands are looked up before the operator is tried.
    assert_eq!(
        execute(tokenize_postfix("a >> c").unwrap(), values()),
        Err(ExecutionError::VariableNotDefined(Ident::new("c")))
    );
}

#[test]
fn narrow_round_expects_the_result_modulo_eight() {
    let values = bind(&[("a", 2), ("b", 3), ("c", 4)]);
    assert_eq!(expected_result("(a + b) * c", values.clone(), Width::Narrow).unwrap(), 4);
    assert_eq!(expected_result("(a + b) * c", values, Width::Wide).unwrap(), 20);
    assert_eq!(
        expected_result("a * b", bind(&[("a", 300), ("b", 300)]), Width::Wide).unwrap(),
        90000 % 65536
    );
    assert!(matches!(
        expected_result("a + b", bind(&[("a", 1)]), Width::Narrow),
        Err(FormulaError::Execution(ExecutionError::VariableNotDefined(_)))
    ));
}
