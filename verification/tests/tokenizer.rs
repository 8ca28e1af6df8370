use commons::{
    classify, is_delimiter_char, is_whitespace_char, tokenize, tokenize_classified, Ident,
    Operator, Token, TokenizationError,
};

fn ident(name: &str) -> Token {
    Token::Ident(Ident::new(name))
}

fn op(operator: Operator) -> Token {
    Token::Operator(operator)
}

#[test]
fn empty_text_has_no_tokens() {
    assert_eq!(tokenize("").unwrap(), vec![]);
    assert_eq!(tokenize("  \n ").unwrap(), vec![]);
}

#[test]
fn single_character_operators() {
    assert_eq!(
        tokenize("+-*/&|^").unwrap(),
        vec![
            op(Operator::Addition),
            op(Operator::Subtraction),
            op(Operator::Multiplication),
            op(Operator::Division),
            op(Operator::BitAnd),
            op(Operator::BitOr),
            op(Operator::BitXor),
        ]
    );
}

#[test]
fn parentheses_are_tokens() {
    assert_eq!(
        tokenize("(a)").unwrap(),
        vec![Token::OpeningParen, ident("a"), Token::ClosingParen]
    );
}

#[test]
fn angle_brackets_need_one_character_of_lookahead() {
    assert_eq!(tokenize("a < b").unwrap(), vec![ident("a"), op(Operator::Less), ident("b")]);
    assert_eq!(tokenize("a << b").unwrap(), vec![ident("a"), op(Operator::BitLeftShift), ident("b")]);
    assert_eq!(tokenize("a <= b").unwrap(), vec![ident("a"), op(Operator::LessEqual), ident("b")]);
    assert_eq!(tokenize("a > b").unwrap(), vec![ident("a"), op(Operator::Greater), ident("b")]);
    assert_eq!(tokenize("a >> b").unwrap(), vec![ident("a"), op(Operator::BitRightShift), ident("b")]);
    assert_eq!(tokenize("a >= b").unwrap(), vec![ident("a"), op(Operator::GreaterEqual), ident("b")]);
}

#[test]
fn angle_bracket_at_the_end_is_a_comparison() {
    assert_eq!(tokenize("a <").unwrap(), vec![ident("a"), op(Operator::Less)]);
    assert_eq!(tokenize("a >").unwrap(), vec![ident("a"), op(Operator::Greater)]);
}

#[test]
fn three_angle_brackets_are_a_shift_and_a_comparison() {
    assert_eq!(
        tokenize("<<<").unwrap(),
        vec![op(Operator::BitLeftShift), op(Operator::Less)]
    );
    assert_eq!(
        tokenize(">>>=").unwrap(),
        vec![op(Operator::BitRightShift), op(Operator::GreaterEqual)]
    );
}

#[test]
fn equality_needs_two_equal_signs() {
    assert_eq!(
        tokenize("a == b").unwrap(),
        vec![ident("a"), op(Operator::EqualEqual), ident("b")]
    );
}

#[test]
fn lone_equal_sign_names_the_character_that_follows() {
    assert_eq!(
        tokenize("a = b"),
        Err(TokenizationError::MissingExpectedChar { expected: '=', actual: ' ' })
    );
    assert_eq!(
        tokenize("a =b"),
        Err(TokenizationError::MissingExpectedChar { expected: '=', actual: 'b' })
    );
}

#[test]
fn equal_sign_at_the_end_names_the_zero_character() {
    assert_eq!(
        tokenize("a ="),
        Err(TokenizationError::MissingExpectedChar { expected: '=', actual: '\0' })
    );
}

#[test]
fn other_characters_are_illegal() {
    assert_eq!(tokenize("a + 1"), Err(TokenizationError::IllegalChar('1')));
    assert_eq!(tokenize("a % b"), Err(TokenizationError::IllegalChar('%')));
    assert_eq!(tokenize("a ! b"), Err(TokenizationError::IllegalChar('!')));
    assert_eq!(tokenize("x1"), Err(TokenizationError::IllegalChar('1')));
}

#[test]
fn first_error_is_reported() {
    assert_eq!(tokenize("a $ b = c"), Err(TokenizationError::IllegalChar('$')));
    assert_eq!(
        tokenize("a = b $ c"),
        Err(TokenizationError::MissingExpectedChar { expected: '=', actual: ' ' })
    );
}

#[test]
fn identifiers_are_runs_of_letters() {
    assert_eq!(
        tokenize("alpha+beta").unwrap(),
        vec![ident("alpha"), op(Operator::Addition), ident("beta")]
    );
    assert_eq!(tokenize("été").unwrap(), vec![ident("été")]);
}

#[test]
fn trailing_identifier_is_flushed() {
    assert_eq!(tokenize("a + total").unwrap(), vec![ident("a"), op(Operator::Addition), ident("total")]);
}

#[test]
fn whitespace_and_newlines_are_skipped() {
    assert_eq!(
        tokenize(" a \n+ b\n").unwrap(),
        vec![ident("a"), op(Operator::Addition), ident("b")]
    );
}

#[test]
fn every_white_space_character_is_skipped() {
    let expected = vec![ident("a"), op(Operator::Addition), ident("b")];
    assert_eq!(tokenize("a +\tb").unwrap(), expected);
    assert_eq!(tokenize("a +\r\nb\r\n").unwrap(), expected);
    assert_eq!(tokenize("\t a +\u{b}\u{c}b").unwrap(), expected);
    assert_eq!(tokenize("a +\u{a0}\u{2003}\u{3000}b").unwrap(), expected);
}

#[test]
fn white_space_is_what_the_unicode_standard_says() {
    let mut c = '\0';
    loop {
        assert_eq!(is_whitespace_char(c), c.is_whitespace());
        if c == char::MAX {
            break;
        }
        c = char::from_u32(c as u32 + 1).unwrap_or('\u{e000}');
    }
}

#[test]
fn classification_marks_the_letters() {
    let text: Vec<char> = "a1 é+".chars().collect();
    assert_eq!(classify(&text), vec![true, false, false, true, false]);
    assert_eq!(classify(&Vec::new()), Vec::<bool>::new());
}

#[test]
fn tokens_under_a_given_classification() {
    let text: Vec<char> = "a +\tb".chars().collect();
    let letters = vec![true, false, false, false, true];
    assert_eq!(
        tokenize_classified(&text, &letters).unwrap(),
        vec![ident("a"), op(Operator::Addition), ident("b")]
    );
    // A position that the classification does not reach holds no letter.
    assert_eq!(
        tokenize_classified(&text, &vec![true]),
        Err(TokenizationError::IllegalChar('b'))
    );
    // The classification decides, not the character.
    let digits: Vec<char> = "1+2".chars().collect();
    assert_eq!(
        tokenize_classified(&digits, &vec![true, false, true]).unwrap(),
        vec![ident("1"), op(Operator::Addition), ident("2")]
    );
}

#[test]
fn only_a_delimiter_ends_an_identifier() {
    // A line feed and an equal sign are no delimiters: the letters before
    // and after them form one identifier, which follows the operator.
    assert_eq!(tokenize("a\nb").unwrap(), vec![ident("ab")]);
    assert_eq!(tokenize("a\tb").unwrap(), vec![ident("ab")]);
    assert_eq!(tokenize("a==b").unwrap(), vec![op(Operator::EqualEqual), ident("ab")]);
}

#[test]
fn delimiter_characters() {
    for c in ['+', '-', '*', '/', '&', '|', '^', '(', ')', '<', '>', ' '] {
        assert!(is_delimiter_char(c));
    }
    for c in ['=', '\n', 'a', '1', '\t', '%'] {
        assert!(!is_delimiter_char(c));
    }
}

#[test]
fn tokenization_error_messages() {
    assert_eq!(
        TokenizationError::MissingExpectedChar { expected: '=', actual: 'b' }.message(),
        "Expected char '=', got 'b' instead"
    );
    assert_eq!(TokenizationError::IllegalChar('$').message(), "Illegal char '$'");
}
