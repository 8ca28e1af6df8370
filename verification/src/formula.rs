//! From the text of a formula to its postfix form and to its value.

use vstd::prelude::*;
use crate::arith::ArithmeticType;
use crate::bindings::bound;
use crate::execute::{evaluates_to, execute, ExecutionError, Failure};
use crate::ident::Ident;
use crate::postfix::{
    lemma_postfix_exists_iff_balanced, paren_free, to_postfix, to_postfix_spec,
    TransformationError,
};
use crate::token::{lexemes, Lexeme, Token};
use crate::tokenizer::{tokenize, tokenize_spec, TokenizationError};

verus! {

/// Why a formula gave no value: the mathematical value of a [`FormulaError`].
pub enum FormulaFailure {
    Tokenization(TokenizationError),
    Transformation(TransformationError),
    Execution(Failure),
}

/// Why a formula gave no value.
#[derive(Debug)]
pub enum FormulaError {
    /// The text is not a sequence of tokens.
    Tokenization(TokenizationError),
    /// The tokens have no postfix form.
    Transformation(TransformationError),
    /// The evaluation of the postfix form failed.
    Execution(ExecutionError),
}

impl View for FormulaError {
    type V = FormulaFailure;

    open spec fn view(&self) -> FormulaFailure {
        match self {
            FormulaError::Tokenization(e) => FormulaFailure::Tokenization(*e),
            FormulaError::Transformation(e) => FormulaFailure::Transformation(*e),
            FormulaError::Execution(e) => FormulaFailure::Execution(e@),
        }
    }
}

impl FormulaFailure {
    /// The text of the error message: that of the failure inside.
    pub open spec fn message_spec(self) -> Seq<char> {
        match self {
            FormulaFailure::Tokenization(e) => e.message_spec(),
            FormulaFailure::Transformation(e) => e.message_spec(),
            FormulaFailure::Execution(failure) => failure.message_spec(),
        }
    }
}

impl FormulaError {
    /// The error as a message for display.
    pub fn message(&self) -> (s: String)
        ensures
            s@ == self@.message_spec(),
    {
        match self {
            FormulaError::Tokenization(e) => e.message(),
            FormulaError::Transformation(e) => e.message(),
            FormulaError::Execution(e) => e.message(),
        }
    }
}

/// The postfix form of a formula's text, or why it has none.
pub open spec fn compile_spec(text: Seq<char>) -> Result<Seq<Lexeme>, FormulaFailure> {
    match tokenize_spec(text) {
        Err(e) => Err(FormulaFailure::Tokenization(e)),
        Ok(tokens) => match to_postfix_spec(tokens) {
            Err(e) => Err(FormulaFailure::Transformation(e)),
            Ok(postfix) => Ok(postfix),
        },
    }
}

/// The mathematical value of the result of a compilation.
pub open spec fn compiled(r: Result<Vec<Token>, FormulaError>) -> Result<
    Seq<Lexeme>,
    FormulaFailure,
> {
    match r {
        Ok(postfix) => Ok(lexemes(postfix@)),
        Err(e) => Err(e@),
    }
}

/// Tokenizes a formula and brings it into postfix order.
pub fn tokenize_postfix(text: &str) -> (r: Result<Vec<Token>, FormulaError>)
    ensures
        compiled(r) == compile_spec(text@),
        r matches Ok(postfix) ==> paren_free(lexemes(postfix@)),
{
    match tokenize(text) {
        Err(e) => Err(FormulaError::Tokenization(e)),
        Ok(tokens) => match to_postfix(tokens) {
            Err(e) => Err(FormulaError::Transformation(e)),
            Ok(postfix) => Ok(postfix),
        },
    }
}

/// Compiling a text twice gives the same tokens or the same failure.
pub proof fn lemma_compile_deterministic(
    text: Seq<char>,
    first: Result<Vec<Token>, FormulaError>,
    second: Result<Vec<Token>, FormulaError>,
)
    requires
        compiled(first) == compile_spec(text),
        compiled(second) == compile_spec(text),
    ensures
        compiled(first) == compiled(second),
        first is Ok ==> second is Ok && lexemes(first->Ok_0@) == lexemes(second->Ok_0@),
{
}

/// Whether `out` is a result that evaluating the formula `text` under
/// `bindings` may have: the failure of the compilation, or a result of
/// evaluating the postfix form.
pub open spec fn formula_evaluates_to<T: ArithmeticType>(
    text: Seq<char>,
    bindings: Map<Seq<char>, T>,
    out: Result<T, FormulaFailure>,
) -> bool {
    match compile_spec(text) {
        Err(failure) => out == Err::<T, FormulaFailure>(failure),
        Ok(postfix) => match out {
            Ok(value) => evaluates_to(postfix, bindings, Ok::<T, Failure>(value)),
            Err(FormulaFailure::Execution(failure)) => evaluates_to(
                postfix,
                bindings,
                Err::<T, Failure>(failure),
            ),
            Err(_) => false,
        },
    }
}

/// The mathematical value of the result of evaluating a formula.
pub open spec fn evaluated<T>(r: Result<T, FormulaError>) -> Result<T, FormulaFailure> {
    match r {
        Ok(value) => Ok(value),
        Err(e) => Err(e@),
    }
}

/// Compiles a formula and evaluates it under the given bindings; every
/// failure on the way is returned, none is raised.
pub fn evaluate<T>(text: &str, valued_idents: Vec<(Ident, T)>) -> (r: Result<
    T,
    FormulaError,
>) where T: ArithmeticType
    ensures
        formula_evaluates_to(text@, bound(valued_idents@), evaluated(r)),
{
    match tokenize_postfix(text) {
        Err(e) => Err(e),
        Ok(postfix) => match execute(postfix, valued_idents) {
            Ok(value) => Ok(value),
            Err(e) => Err(FormulaError::Execution(e)),
        },
    }
}

/// The value of a formula, or the message of its failure: what is sent back
/// to the one who asked.
pub fn answer<T>(text: &str, valued_idents: Vec<(Ident, T)>) -> (r: Result<T, String>) where
    T: ArithmeticType,

    ensures
        match r {
            Ok(value) => formula_evaluates_to(
                text@,
                bound(valued_idents@),
                Ok::<T, FormulaFailure>(value),
            ),
            Err(message) => exists|failure: FormulaFailure|
                #![trigger failure.message_spec()]
                formula_evaluates_to(text@, bound(valued_idents@), Err::<T, FormulaFailure>(failure))
                    && message@ == failure.message_spec(),
        },
{
    match evaluate(text, valued_idents) {
        Ok(value) => Ok(value),
        Err(error) => {
            assert(formula_evaluates_to(
                text@,
                bound(valued_idents@),
                Err::<T, FormulaFailure>(error@),
            ));
            Err(error.message())
        },
    }
}

} // verus!
