//! The tokenizer: from the text of a formula to its tokens.

use vstd::prelude::*;
use vstd::std_specs::iter::IteratorSpec;
use crate::ident::Ident;
use crate::operator::Operator;
use crate::token::{lexemes, Lexeme, Token};

verus! {

/// Whether the Unicode standard gives the character the property `Alphabetic`.
pub uninterp spec fn is_alphabetic(c: char) -> bool;

/// `char::is_alphabetic` of std: the result is the Unicode property
/// `Alphabetic` of the character, a function of the character alone.
pub assume_specification[ char::is_alphabetic ](c: char) -> (b: bool)
    ensures
        b == is_alphabetic(c),
;

/// `String::push` of std: appends the character to the end of the string.
pub assume_specification[ String::push ](s: &mut String, c: char)
    ensures
        final(s)@ == old(s)@.push(c),
;

/// Why a text is not a formula.
#[derive(Copy, Clone, PartialEq, Eq, Debug, Structural)]
pub enum TokenizationError {
    /// `expected` had to follow, and `actual` stood there; `actual` is the
    /// character with code zero where the text ended.
    MissingExpectedChar { expected: char, actual: char },
    /// The character belongs to no token.
    IllegalChar(char),
}

impl TokenizationError {
    /// The text of the error message.
    pub open spec fn message_spec(self) -> Seq<char> {
        match self {
            TokenizationError::MissingExpectedChar { expected, actual } => "Expected char '"@
                + seq![expected] + "', got '"@ + seq![actual] + "' instead"@,
            TokenizationError::IllegalChar(c) => "Illegal char '"@ + seq![c] + "'"@,
        }
    }

    /// The error as a message for display.
    pub fn message(&self) -> (s: String)
        ensures
            s@ == self.message_spec(),
    {
        match self {
            TokenizationError::MissingExpectedChar { expected, actual } => {
                let mut s = String::from_str("Expected char '");
                s.push(*expected);
                s.append("', got '");
                s.push(*actual);
                s.append("' instead");
                s
            },
            TokenizationError::IllegalChar(c) => {
                let mut s = String::from_str("Illegal char '");
                s.push(*c);
                s.append("'");
                s
            },
        }
    }
}

/// Whether the character ends an identifier that stands directly before it.
pub open spec fn is_delimiter(c: char) -> bool {
    c == '+' || c == '-' || c == '*' || c == '/' || c == '&' || c == '|' || c == '^' || c == '('
        || c == ')' || c == '<' || c == '>' || c == ' '
}

/// Whether the character ends an identifier that stands directly before it.
pub fn is_delimiter_char(c: char) -> (r: bool)
    ensures
        r == is_delimiter(c),
{
    c == '+' || c == '-' || c == '*' || c == '/' || c == '&' || c == '|' || c == '^' || c == '('
        || c == ')' || c == '<' || c == '>' || c == ' '
}

/// The operator or parenthesis that starts at position `i` of `text`, with
/// the number of characters it takes up; `None` where none starts there.
pub open spec fn symbol_at(text: Seq<char>, i: int) -> Option<(Lexeme, int)>
    recommends
        0 <= i < text.len(),
{
    let c = text[i];
    let followed_by = |n: char| i + 1 < text.len() && text[i + 1] == n;
    if c == '+' {
        Some((Lexeme::Operator(Operator::Addition), 1))
    } else if c == '-' {
        Some((Lexeme::Operator(Operator::Subtraction), 1))
    } else if c == '*' {
        Some((Lexeme::Operator(Operator::Multiplication), 1))
    } else if c == '/' {
        Some((Lexeme::Operator(Operator::Division), 1))
    } else if c == '&' {
        Some((Lexeme::Operator(Operator::BitAnd), 1))
    } else if c == '|' {
        Some((Lexeme::Operator(Operator::BitOr), 1))
    } else if c == '^' {
        Some((Lexeme::Operator(Operator::BitXor), 1))
    } else if c == '(' {
        Some((Lexeme::Open, 1))
    } else if c == ')' {
        Some((Lexeme::Close, 1))
    } else if c == '<' {
        if followed_by('<') {
            Some((Lexeme::Operator(Operator::BitLeftShift), 2))
        } else if followed_by('=') {
            Some((Lexeme::Operator(Operator::LessEqual), 2))
        } else {
            Some((Lexeme::Operator(Operator::Less), 1))
        }
    } else if c == '>' {
        if followed_by('>') {
            Some((Lexeme::Operator(Operator::BitRightShift), 2))
        } else if followed_by('=') {
            Some((Lexeme::Operator(Operator::GreaterEqual), 2))
        } else {
            Some((Lexeme::Operator(Operator::Greater), 1))
        }
    } else if c == '=' && followed_by('=') {
        Some((Lexeme::Operator(Operator::EqualEqual), 2))
    } else {
        None
    }
}

/// Whether the character is white space: one of the characters to which
/// the Unicode standard gives the property `White_Space`.
pub open spec fn is_whitespace(c: char) -> bool {
    ('\u{9}' <= c && c <= '\u{d}') || c == ' ' || c == '\u{85}' || c == '\u{a0}' || c
        == '\u{1680}' || ('\u{2000}' <= c && c <= '\u{200a}') || c == '\u{2028}' || c
        == '\u{2029}' || c == '\u{202f}' || c == '\u{205f}' || c == '\u{3000}'
}

/// Whether the character is white space.
pub fn is_whitespace_char(c: char) -> (r: bool)
    ensures
        r == is_whitespace(c),
{
    ('\u{9}' <= c && c <= '\u{d}') || c == ' ' || c == '\u{85}' || c == '\u{a0}' || c
        == '\u{1680}' || ('\u{2000}' <= c && c <= '\u{200a}') || c == '\u{2028}' || c
        == '\u{2029}' || c == '\u{202f}' || c == '\u{205f}' || c == '\u{3000}'
}

/// Whether the classification takes the character at position `i` for a letter.
pub open spec fn letter_at(letters: Seq<bool>, i: int) -> bool {
    0 <= i < letters.len() && letters[i]
}

/// The result of scanning `text` from position `i` on, where `letters` says
/// of each position whether its character is a letter, `buffer` holds the
/// characters of the identifier that is being read and `out` the lexemes
/// found so far.
///
/// A letter joins the buffer; the buffer becomes a name when a delimiter
/// follows directly or the text ends. Operators and parentheses are read by
/// [`symbol_at`]. A `=` that no `=` follows is an error. White space is
/// passed over, and any other character is an error.
pub open spec fn scan(
    text: Seq<char>,
    letters: Seq<bool>,
    i: int,
    buffer: Seq<char>,
    out: Seq<Lexeme>,
) -> Result<Seq<Lexeme>, TokenizationError>
    decreases text.len() - i,
{
    if i < 0 || i >= text.len() {
        if buffer.len() > 0 {
            Ok(out.push(Lexeme::Name(buffer)))
        } else {
            Ok(out)
        }
    } else {
        let c = text[i];
        if letter_at(letters, i) {
            if i + 1 < text.len() && is_delimiter(text[i + 1]) {
                scan(text, letters, i + 1, Seq::empty(), out.push(Lexeme::Name(buffer.push(c))))
            } else {
                scan(text, letters, i + 1, buffer.push(c), out)
            }
        } else if let Some((lexeme, width)) = symbol_at(text, i) {
            scan(text, letters, i + width, buffer, out.push(lexeme))
        } else if c == '=' {
            Err(
                TokenizationError::MissingExpectedChar {
                    expected: '=',
                    actual: if i + 1 < text.len() {
                        text[i + 1]
                    } else {
                        '\0'
                    },
                },
            )
        } else if is_whitespace(c) {
            scan(text, letters, i + 1, buffer, out)
        } else {
            Err(TokenizationError::IllegalChar(c))
        }
    }
}

/// The lexemes of a text under a given classification of its characters,
/// or why it has none.
pub open spec fn tokenize_classified_spec(text: Seq<char>, letters: Seq<bool>) -> Result<
    Seq<Lexeme>,
    TokenizationError,
> {
    scan(text, letters, 0, Seq::empty(), Seq::empty())
}

/// The classification of a text's characters: of each, whether it is alphabetic.
pub open spec fn letters_of(text: Seq<char>) -> Seq<bool> {
    Seq::new(text.len(), |i: int| is_alphabetic(text[i]))
}

/// The lexemes of a formula's text, or why it has none.
pub open spec fn tokenize_spec(text: Seq<char>) -> Result<Seq<Lexeme>, TokenizationError> {
    tokenize_classified_spec(text, letters_of(text))
}

/// The mathematical value of the result of a tokenization.
pub open spec fn tokens_of(r: Result<Vec<Token>, TokenizationError>) -> Result<
    Seq<Lexeme>,
    TokenizationError,
> {
    match r {
        Ok(tokens) => Ok(lexemes(tokens@)),
        Err(e) => Err(e),
    }
}

/// Whether `r` is what tokenizing `text` gives.
pub open spec fn tokenized(text: Seq<char>, r: Result<Vec<Token>, TokenizationError>) -> bool {
    tokens_of(r) == tokenize_spec(text)
}

/// Whether the name is a word: one letter or more, and letters only.
pub open spec fn is_word(name: Seq<char>) -> bool {
    name.len() > 0 && forall|j: int| 0 <= j < name.len() ==> is_alphabetic(#[trigger] name[j])
}

/// Whether every name among the lexemes is a word.
pub open spec fn names_are_words(tokens: Seq<Lexeme>) -> bool {
    forall|k: int|
        0 <= k < tokens.len() ==> ((#[trigger] tokens[k]) matches Lexeme::Name(name) ==> is_word(
            name,
        ))
}

proof fn lemma_scan_words(text: Seq<char>, i: int, buffer: Seq<char>, out: Seq<Lexeme>)
    requires
        0 <= i <= text.len(),
        forall|j: int| 0 <= j < buffer.len() ==> is_alphabetic(#[trigger] buffer[j]),
        names_are_words(out),
    ensures
        scan(text, letters_of(text), i, buffer, out) matches Ok(tokens) ==> names_are_words(tokens),
    decreases text.len() - i,
{
    let letters = letters_of(text);
    if i >= text.len() {
        if buffer.len() > 0 {
            assert(is_word(buffer));
        }
    } else {
        let c = text[i];
        if letter_at(letters, i) {
            let grown = buffer.push(c);
            assert(is_word(grown));
            if i + 1 < text.len() && is_delimiter(text[i + 1]) {
                lemma_scan_words(text, i + 1, Seq::empty(), out.push(Lexeme::Name(grown)));
            } else {
                lemma_scan_words(text, i + 1, grown, out);
            }
        } else if let Some((lexeme, width)) = symbol_at(text, i) {
            lemma_scan_words(text, i + width, buffer, out.push(lexeme));
        } else if c == '=' {
        } else if is_whitespace(c) {
            lemma_scan_words(text, i + 1, buffer, out);
        }
    }
}

/// Every identifier of a formula is a word: it holds a letter, and letters only.
pub proof fn lemma_identifiers_are_words(text: Seq<char>)
    ensures
        tokenize_spec(text) matches Ok(tokens) ==> names_are_words(tokens),
{
    lemma_scan_words(text, 0, Seq::empty(), Seq::empty());
}

/// Appending a token appends its lexeme.
pub proof fn lemma_lexemes_push(tokens: Seq<Token>, token: Token)
    ensures
        lexemes(tokens.push(token)) == lexemes(tokens).push(token@),
{
    assert(lexemes(tokens.push(token)) =~= lexemes(tokens).push(token@));
}

/// The characters of a string, one by one.
pub fn chars_of(s: &str) -> (v: Vec<char>)
    ensures
        v@ == s@,
{
    broadcast use vstd::string::group_string_axioms;
    let mut v: Vec<char> = Vec::new();
    let mut it = s.chars();
    loop
        invariant
            v@ + it.remaining() == s@,
            it.decrease() is Some,
        ensures
            v@ == s@,
        decreases it.decrease()->0,
    {
        match it.next() {
            Some(c) => {
                v.push(c);
            },
            None => {
                break;
            },
        }
    }
    v
}

/// Appends `token` to `tokens`.
pub(crate) fn emit(tokens: &mut Vec<Token>, token: Token)
    ensures
        lexemes(final(tokens)@) == lexemes(old(tokens)@).push(token@),
{
    proof {
        lemma_lexemes_push(tokens@, token);
    }
    tokens.push(token);
}

/// Splits a text into its tokens, taking for letters the characters that
/// `letters` marks; a position that `letters` does not reach holds no letter.
///
/// The result is exactly [`tokenize_classified_spec`] of the text and the
/// classification: the tokens in the order in which they stand, or the first
/// error met.
pub fn tokenize_classified(text: &Vec<char>, letters: &Vec<bool>) -> (r: Result<
    Vec<Token>,
    TokenizationError,
>)
    ensures
        tokens_of(r) == tokenize_classified_spec(text@, letters@),
{
    let mut tokens: Vec<Token> = Vec::new();
    let mut ident_buffer = String::new();
    let mut i: usize = 0;
    assert(lexemes(tokens@) =~= Seq::empty());
    while i < text.len()
        invariant
            0 <= i <= text.len(),
            scan(text@, letters@, i as int, ident_buffer@, lexemes(tokens@))
                == tokenize_classified_spec(text@, letters@),
        decreases text.len() - i,
    {
        let c = text[i];
        let has_next = i + 1 < text.len();
        if i < letters.len() && letters[i] {
            ident_buffer.push(c);
            if has_next && is_delimiter_char(text[i + 1]) {
                emit(&mut tokens, Token::Ident(Ident::from_string(ident_buffer)));
                ident_buffer = String::new();
            }
            i += 1;
        } else if c == '+' {
            emit(&mut tokens, Token::Operator(Operator::Addition));
            i += 1;
        } else if c == '-' {
            emit(&mut tokens, Token::Operator(Operator::Subtraction));
            i += 1;
        } else if c == '*' {
            emit(&mut tokens, Token::Operator(Operator::Multiplication));
            i += 1;
        } else if c == '/' {
            emit(&mut tokens, Token::Operator(Operator::Division));
            i += 1;
        } else if c == '&' {
            emit(&mut tokens, Token::Operator(Operator::BitAnd));
            i += 1;
        } else if c == '|' {
            emit(&mut tokens, Token::Operator(Operator::BitOr));
            i += 1;
        } else if c == '^' {
            emit(&mut tokens, Token::Operator(Operator::BitXor));
            i += 1;
        } else if c == '(' {
            emit(&mut tokens, Token::OpeningParen);
            i += 1;
        } else if c == ')' {
            emit(&mut tokens, Token::ClosingParen);
            i += 1;
        } else if c == '<' {
            if has_next && text[i + 1] == '<' {
                emit(&mut tokens, Token::Operator(Operator::BitLeftShift));
                i += 2;
            } else if has_next && text[i + 1] == '=' {
                emit(&mut tokens, Token::Operator(Operator::LessEqual));
                i += 2;
            } else {
                emit(&mut tokens, Token::Operator(Operator::Less));
                i += 1;
            }
        } else if c == '>' {
            if has_next && text[i + 1] == '>' {
                emit(&mut tokens, Token::Operator(Operator::BitRightShift));
                i += 2;
            } else if has_next && text[i + 1] == '=' {
                emit(&mut tokens, Token::Operator(Operator::GreaterEqual));
                i += 2;
            } else {
                emit(&mut tokens, Token::Operator(Operator::Greater));
                i += 1;
            }
        } else if c == '=' {
            if has_next && text[i + 1] == '=' {
                emit(&mut tokens, Token::Operator(Operator::EqualEqual));
                i += 2;
            } else if has_next {
                return Err(
                    TokenizationError::MissingExpectedChar { expected: '=', actual: text[i + 1] },
                );
            } else {
                return Err(TokenizationError::MissingExpectedChar { expected: '=', actual: '\0' });
            }
        } else if is_whitespace_char(c) {
            i += 1;
        } else {
            return Err(TokenizationError::IllegalChar(c));
        }
    }
    if !ident_buffer.as_str().is_empty() {
        emit(&mut tokens, Token::Ident(Ident::from_string(ident_buffer)));
    }
    Ok(tokens)
}

/// Says of each character of a text whether it is alphabetic.
pub fn classify(text: &Vec<char>) -> (letters: Vec<bool>)
    ensures
        letters@ == letters_of(text@),
{
    let mut letters: Vec<bool> = Vec::new();
    let mut i: usize = 0;
    while i < text.len()
        invariant
            0 <= i <= text.len(),
            letters@ == letters_of(text@.take(i as int)),
        decreases text.len() - i,
    {
        letters.push(text[i].is_alphabetic());
        i += 1;
        assert(letters@ =~= letters_of(text@.take(i as int)));
    }
    assert(text@.take(text.len() as int) =~= text@);
    letters
}

/// Splits the text of a formula into its tokens.
///
/// The result is exactly [`tokenize_spec`] of the text: the tokens in the
/// order in which they stand, or the first error met. Every identifier is a
/// word.
pub fn tokenize(string: &str) -> (r: Result<Vec<Token>, TokenizationError>)
    ensures
        tokenized(string@, r),
        r matches Ok(tokens) ==> names_are_words(lexemes(tokens@)),
{
    proof {
        lemma_identifiers_are_words(string@);
    }
    let text = chars_of(string);
    let letters = classify(&text);
    tokenize_classified(&text, &letters)
}

} // verus!
