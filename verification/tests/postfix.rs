use commons::{to_postfix, tokenize, tokenize_postfix, FormulaError, TransformationError};

fn postfix_of(text: &str) -> Vec<commons::Token> {
    to_postfix(tokenize(text).unwrap()).unwrap()
}

#[test]
fn multiplication_groups_before_addition() {
    assert_eq!(
        tokenize_postfix("a + b * c").unwrap(),
        tokenize_postfix("a + (b * c)").unwrap()
    );
    assert_eq!(postfix_of("a + b * c"), tokenize("a b c * +").unwrap());
}

#[test]
fn parentheses_group() {
    assert_eq!(postfix_of("(a + b)"), tokenize("a b +").unwrap());
    assert_eq!(postfix_of("(a + b) - e"), tokenize("a b + e -").unwrap());
    assert_eq!(postfix_of("a * b - (c + d) + e"), tokenize("a b * c d + - e +").unwrap());
    assert_eq!(postfix_of("(a + b) * c"), tokenize("a b + c *").unwrap());
    assert_eq!(postfix_of("((a))"), tokenize("a").unwrap());
}

#[test]
fn equal_ranks_group_to_the_left() {
    assert_eq!(postfix_of("a - b + c"), tokenize("a b - c +").unwrap());
    assert_eq!(postfix_of("a / b * c"), tokenize("a b / c *").unwrap());
    assert_eq!(postfix_of("a << b < c"), tokenize("a b << c <").unwrap());
    assert_eq!(postfix_of("a < b >> c"), tokenize("a b < c >>").unwrap());
}

#[test]
fn ranks_from_tightest_to_loosest() {
    assert_eq!(postfix_of("a | b ^ c"), tokenize("a b c ^ |").unwrap());
    assert_eq!(postfix_of("a ^ b & c"), tokenize("a b c & ^").unwrap());
    assert_eq!(postfix_of("a & b == c"), tokenize("a b c == &").unwrap());
    assert_eq!(postfix_of("a == b + c"), tokenize("a b c + ==").unwrap());
    assert_eq!(postfix_of("a >> b + c"), tokenize("a b c + >>").unwrap());
    assert_eq!(postfix_of("a + b / c"), tokenize("a b c / +").unwrap());
    assert_eq!(postfix_of("a * b | c"), tokenize("a b * c |").unwrap());
}

#[test]
fn empty_sequence_has_an_empty_postfix_form() {
    assert_eq!(to_postfix(vec![]).unwrap(), vec![]);
    assert_eq!(postfix_of("()"), vec![]);
}

#[test]
fn unmatched_opening_parenthesis_fails() {
    for text in ["(", "(a + b", "((a + b)", "a + (b * (c - d)", "a ("] {
        assert_eq!(
            to_postfix(tokenize(text).unwrap()),
            Err(TransformationError::UnmatchedParen)
        );
    }
}

#[test]
fn unmatched_closing_parenthesis_fails() {
    for text in [")", "a + b)", "(a + b))", ") a (", "a ) + ( b"] {
        assert_eq!(
            to_postfix(tokenize(text).unwrap()),
            Err(TransformationError::UnmatchedParen)
        );
    }
}

#[test]
fn postfix_form_has_no_parentheses() {
    let postfix = postfix_of("((a + b) * (c - d)) / (e)");
    assert!(!postfix.contains(&commons::Token::OpeningParen));
    assert!(!postfix.contains(&commons::Token::ClosingParen));
    assert_eq!(postfix, tokenize("a b + c d - * e /").unwrap());
}

#[test]
fn conversion_is_repeatable() {
    let text = "a * b - (c + d) + e";
    assert_eq!(tokenize_postfix(text).unwrap(), tokenize_postfix(text).unwrap());
    assert_eq!(tokenize(text).unwrap(), tokenize(text).unwrap());
}

#[test]
fn compilation_reports_the_stage_that_failed() {
    assert!(matches!(
        tokenize_postfix("a $ b"),
        Err(FormulaError::Tokenization(commons::TokenizationError::IllegalChar('$')))
    ));
    assert!(matches!(
        tokenize_postfix("(a + b"),
        Err(FormulaError::Transformation(TransformationError::UnmatchedParen))
    ));
}

#[test]
fn transformation_error_message() {
    assert_eq!(TransformationError::UnmatchedParen.message(), "Unmatched set of parenthesis");
}
