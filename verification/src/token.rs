//! The lexical tokens of a formula.

use vstd::prelude::*;
use vstd::std_specs::cmp::PartialEqSpecImpl;
use crate::ident::Ident;
use crate::operator::Operator;

verus! {

/// What a token stands for: the mathematical value of a [`Token`].
pub enum Lexeme {
    Operator(Operator),
    Name(Seq<char>),
    Open,
    Close,
}

/// A lexical token of a formula.
#[derive(Debug, Eq)]
pub enum Token {
    Operator(Operator),
    Ident(Ident),
    OpeningParen,
    ClosingParen,
}

impl View for Token {
    type V = Lexeme;

    open spec fn view(&self) -> Lexeme {
        match self {
            Token::Operator(op) => Lexeme::Operator(*op),
            Token::Ident(ident) => Lexeme::Name(ident@),
            Token::OpeningParen => Lexeme::Open,
            Token::ClosingParen => Lexeme::Close,
        }
    }
}

/// The lexemes that a sequence of tokens stands for.
pub open spec fn lexemes(tokens: Seq<Token>) -> Seq<Lexeme> {
    tokens.map_values(|t: Token| t@)
}

impl Clone for Token {
    fn clone(&self) -> (r: Self)
        ensures
            r@ == self@,
    {
        match self {
            Token::Operator(op) => Token::Operator(*op),
            Token::Ident(ident) => Token::Ident(ident.clone()),
            Token::OpeningParen => Token::OpeningParen,
            Token::ClosingParen => Token::ClosingParen,
        }
    }
}

impl PartialEq for Token {
    fn eq(&self, other: &Self) -> (r: bool) {
        match (self, other) {
            (Token::Operator(a), Token::Operator(b)) => *a == *b,
            (Token::Ident(a), Token::Ident(b)) => a == b,
            (Token::OpeningParen, Token::OpeningParen) => true,
            (Token::ClosingParen, Token::ClosingParen) => true,
            _ => false,
        }
    }
}

impl PartialEqSpecImpl for Token {
    open spec fn obeys_eq_spec() -> bool {
        true
    }

    open spec fn eq_spec(&self, other: &Self) -> bool {
        self@ == other@
    }
}

} // verus!
