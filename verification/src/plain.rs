//! Evaluation on plain integers: the operator is a function of its
//! operands, and so is the result of a formula.

use vstd::prelude::*;
use crate::arith::{plain_result, ArithmeticType};
use crate::bindings::bound;
use crate::execute::{execute, finish, outcome, resolve, runs_to, unbound, ExecutionError, Failure, Operand};
use crate::formula::{compile_spec, evaluated, tokenize_postfix, FormulaError, FormulaFailure};
use crate::ident::Ident;
use crate::token::{lexemes, Token};
use crate::width::Width;
use crate::postfix::{is_postfix_lexeme, paren_free};
use crate::token::Lexeme;

verus! {

/// The result of evaluating `postfix` on plain integers from position `i`
/// on, with the given stack of operands.
pub open spec fn plain_run(
    postfix: Seq<Lexeme>,
    i: int,
    stack: Seq<Operand<u32>>,
    bindings: Map<Seq<char>, u32>,
) -> Result<u32, Failure>
    decreases postfix.len() - i,
{
    if i < 0 || i >= postfix.len() {
        finish(stack, bindings)
    } else {
        match postfix[i] {
            Lexeme::Name(name) => plain_run(
                postfix,
                i + 1,
                stack.push(Operand::Named(name)),
                bindings,
            ),
            Lexeme::Operator(op) => {
                if stack.len() < 2 {
                    Err(Failure::InvalidComputation)
                } else {
                    let lhs = stack[stack.len() - 2];
                    let rhs = stack[stack.len() - 1];
                    match (resolve(lhs, bindings), resolve(rhs, bindings)) {
                        (None, _) => Err(unbound(lhs)),
                        (Some(_), None) => Err(unbound(rhs)),
                        (Some(left), Some(right)) => plain_run(
                            postfix,
                            i + 1,
                            stack.take(stack.len() - 2).push(
                                Operand::Computed(plain_result(left, right, op)),
                            ),
                            bindings,
                        ),
                    }
                }
            },
            _ => Err(Failure::InvalidComputation),
        }
    }
}

/// The value of a formula in postfix order on plain integers, or its failure.
pub open spec fn plain_value(postfix: Seq<Lexeme>, bindings: Map<Seq<char>, u32>) -> Result<
    u32,
    Failure,
> {
    plain_run(postfix, 0, Seq::empty(), bindings)
}

/// On plain integers an evaluation has one result, that of [`plain_run`].
proof fn lemma_plain_run(
    postfix: Seq<Lexeme>,
    i: int,
    stack: Seq<Operand<u32>>,
    bindings: Map<Seq<char>, u32>,
    out: Result<u32, Failure>,
)
    requires
        0 <= i <= postfix.len(),
        paren_free(postfix),
    ensures
        runs_to(postfix, i, stack, bindings, out) <==> out == plain_run(postfix, i, stack, bindings),
    decreases postfix.len() - i,
{
    if i < postfix.len() {
        assert(is_postfix_lexeme(postfix[i]));
        match postfix[i] {
            Lexeme::Name(name) => {
                lemma_plain_run(postfix, i + 1, stack.push(Operand::Named(name)), bindings, out);
            },
            Lexeme::Operator(op) => {
                if stack.len() >= 2 {
                    let lhs = stack[stack.len() - 2];
                    let rhs = stack[stack.len() - 1];
                    match (resolve(lhs, bindings), resolve(rhs, bindings)) {
                        (Some(left), Some(right)) => {
                            let value = plain_result(left, right, op);
                            let next = stack.take(stack.len() - 2).push(Operand::Computed(value));
                            lemma_plain_run(postfix, i + 1, next, bindings, out);
                            assert(left.combines(&right, op, value));
                        },
                        _ => {},
                    }
                }
            },
            _ => {},
        }
    }
}

/// Every result of evaluating a formula on plain integers is its
/// [`plain_value`]: the evaluation is a function of the formula and the
/// bindings.
pub proof fn lemma_plain_evaluation_is_a_function(
    postfix: Seq<Lexeme>,
    bindings: Map<Seq<char>, u32>,
    out: Result<u32, Failure>,
)
    requires
        paren_free(postfix),
    ensures
        crate::execute::evaluates_to(postfix, bindings, out) <==> out == plain_value(
            postfix,
            bindings,
        ),
{
    lemma_plain_run(postfix, 0, Seq::empty(), bindings, out);
}

/// Evaluates a formula in postfix order on plain integers: the result is
/// the formula's [`plain_value`].
pub fn execute_plain(postfix: Vec<Token>, valued_idents: Vec<(Ident, u32)>) -> (r: Result<
    u32,
    ExecutionError,
>)
    requires
        paren_free(lexemes(postfix@)),
    ensures
        outcome(r) == plain_value(lexemes(postfix@), bound(valued_idents@)),
{
    let r = execute(postfix, valued_idents);
    proof {
        lemma_plain_evaluation_is_a_function(
            lexemes(postfix@),
            bound(valued_idents@),
            outcome(r),
        );
    }
    r
}

/// The value of a formula's text on plain integers, or why it has none.
pub open spec fn plain_formula_value(text: Seq<char>, bindings: Map<Seq<char>, u32>) -> Result<
    u32,
    FormulaFailure,
> {
    match compile_spec(text) {
        Err(failure) => Err(failure),
        Ok(postfix) => match plain_value(postfix, bindings) {
            Ok(value) => Ok(value),
            Err(failure) => Err(FormulaFailure::Execution(failure)),
        },
    }
}

/// The value that the one who asks expects of a round: the formula
/// evaluated on the plain operands, brought into the range of the width.
pub fn expected_result(text: &str, clear_values: Vec<(Ident, u32)>, width: Width) -> (r: Result<
    u32,
    FormulaError,
>)
    ensures
        evaluated(r) == match plain_formula_value(text@, bound(clear_values@)) {
            Ok(full) => Ok::<u32, FormulaFailure>((full as nat % width.modulus_spec()) as u32),
            Err(failure) => Err::<u32, FormulaFailure>(failure),
        },
{
    match tokenize_postfix(text) {
        Err(e) => Err(e),
        Ok(postfix) => match execute_plain(postfix, clear_values) {
            Ok(full) => Ok(width.reduce(full)),
            Err(e) => Err(FormulaError::Execution(e)),
        },
    }
}

} // verus!
