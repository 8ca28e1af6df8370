//! Which failure an evaluation ends in.

use vstd::prelude::*;
use crate::arith::ArithmeticType;
use crate::execute::{evaluates_to, resolve, runs_to, unbound, Failure, Operand};
use crate::operator::Operator;
use crate::token::Lexeme;
use crate::unique::mentions;

verus! {

/// Whether `postfix` from position `i` on, with `depth` operands on the
/// stack, gives each operator its two operands and leaves one operand.
pub open spec fn reduces(postfix: Seq<Lexeme>, i: int, depth: int) -> bool
    decreases postfix.len() - i,
{
    if i < 0 || i >= postfix.len() {
        depth == 1
    } else {
        match postfix[i] {
            Lexeme::Name(_) => reduces(postfix, i + 1, depth + 1),
            Lexeme::Operator(_) => depth >= 2 && reduces(postfix, i + 1, depth - 1),
            _ => false,
        }
    }
}

/// Whether the sequence is a formula in postfix order: operands and
/// operators that reduce to one value.
pub open spec fn well_formed(postfix: Seq<Lexeme>) -> bool {
    reduces(postfix, 0, 0)
}

/// Whether the type supports every operator of the sequence.
pub open spec fn supported<T: ArithmeticType>(postfix: Seq<Lexeme>) -> bool {
    forall|k: int|
        0 <= k < postfix.len() ==> ((#[trigger] postfix[k]) matches Lexeme::Operator(op)
            ==> T::supports(op))
}

/// Whether the operand is a name that is bound to nothing.
pub open spec fn dangling<T>(operand: Operand<T>, bindings: Map<Seq<char>, T>) -> bool {
    operand matches Operand::Named(name) && !bindings.contains_key(name)
}

/// Whether a name that is bound to nothing waits on the stack or stands at
/// position `i` of the sequence or after it.
spec fn pending<T>(
    postfix: Seq<Lexeme>,
    i: int,
    stack: Seq<Operand<T>>,
    bindings: Map<Seq<char>, T>,
) -> bool {
    ||| exists|p: int| 0 <= p < stack.len() && dangling(#[trigger] stack[p], bindings)
    ||| exists|k: int|
        i <= k < postfix.len() && ((#[trigger] postfix[k]) matches Lexeme::Name(name)
            && !bindings.contains_key(name))
}

/// Whether every name on the stack is one that the sequence mentions.
spec fn drawn_from<T>(stack: Seq<Operand<T>>, postfix: Seq<Lexeme>) -> bool {
    forall|p: int|
        0 <= p < stack.len() ==> ((#[trigger] stack[p]) matches Operand::Named(name) ==> mentions(
            postfix,
            name,
        ))
}

proof fn lemma_unbound_run<T: ArithmeticType>(
    postfix: Seq<Lexeme>,
    i: int,
    stack: Seq<Operand<T>>,
    bindings: Map<Seq<char>, T>,
    out: Result<T, Failure>,
)
    requires
        0 <= i <= postfix.len(),
        reduces(postfix, i, stack.len() as int),
        supported::<T>(postfix),
        pending(postfix, i, stack, bindings),
        drawn_from(stack, postfix),
        runs_to(postfix, i, stack, bindings, out),
    ensures
        out matches Err(Failure::VariableNotDefined(name)) && mentions(postfix, name)
            && !bindings.contains_key(name),
    decreases postfix.len() - i,
{
    if i >= postfix.len() {
        let p = choose|p: int| 0 <= p < stack.len() && dangling(#[trigger] stack[p], bindings);
        assert(dangling(stack[0], bindings));
    } else {
        match postfix[i] {
            Lexeme::Name(name) => {
                let next = stack.push(Operand::Named(name));
                assert(mentions(postfix, name)) by {
                    assert(postfix[i] == Lexeme::Name(name));
                }
                assert(pending(postfix, i + 1, next, bindings)) by {
                    if exists|p: int| 0 <= p < stack.len() && dangling(#[trigger] stack[p], bindings) {
                        let p = choose|p: int|
                            0 <= p < stack.len() && dangling(#[trigger] stack[p], bindings);
                        assert(dangling(next[p], bindings));
                    } else {
                        let k = choose|k: int|
                            i <= k < postfix.len() && ((#[trigger] postfix[k]) matches Lexeme::Name(
                                name,
                            ) && !bindings.contains_key(name));
                        if k == i {
                            assert(dangling(next[stack.len() as int], bindings));
                        } else {
                            assert(i + 1 <= k);
                        }
                    }
                }
                assert(drawn_from(next, postfix)) by {
                    assert forall|p: int| 0 <= p < next.len() implies ((#[trigger] next[p]) matches Operand::Named(
                        n,
                    ) ==> mentions(postfix, n)) by {
                        if p < stack.len() {
                            assert(next[p] == stack[p]);
                        }
                    }
                }
                lemma_unbound_run(postfix, i + 1, next, bindings, out);
            },
            Lexeme::Operator(op) => {
                let lhs = stack[stack.len() - 2];
                let rhs = stack[stack.len() - 1];
                match (resolve(lhs, bindings), resolve(rhs, bindings)) {
                    (None, _) => {},
                    (Some(_), None) => {},
                    (Some(left), Some(right)) => {
                        assert(T::supports(op));
                        let value = choose|value: T| #[trigger]
                            left.combines(&right, op, value) && runs_to(
                                postfix,
                                i + 1,
                                stack.take(stack.len() - 2).push(Operand::Computed(value)),
                                bindings,
                                out,
                            );
                        let next = stack.take(stack.len() - 2).push(Operand::Computed(value));
                        assert(pending(postfix, i + 1, next, bindings)) by {
                            if exists|p: int|
                                0 <= p < stack.len() && dangling(#[trigger] stack[p], bindings) {
                                let p = choose|p: int|
                                    0 <= p < stack.len() && dangling(#[trigger] stack[p], bindings);
                                assert(p < stack.len() - 2);
                                assert(dangling(next[p], bindings));
                            } else {
                                let k = choose|k: int|
                                    i <= k < postfix.len() && ((#[trigger] postfix[k]) matches Lexeme::Name(
                                        name,
                                    ) && !bindings.contains_key(name));
                                assert(i + 1 <= k);
                            }
                        }
                        assert(drawn_from(next, postfix)) by {
                            assert forall|p: int| 0 <= p < next.len() implies ((
                            #[trigger] next[p]) matches Operand::Named(n) ==> mentions(
                                postfix,
                                n,
                            )) by {
                                if p < stack.len() - 2 {
                                    assert(next[p] == stack[p]);
                                }
                            }
                        }
                        lemma_unbound_run(postfix, i + 1, next, bindings, out);
                    },
                }
            },
            _ => {},
        }
    }
}

/// Evaluating a formula in postfix order that mentions an identifier that
/// is bound to nothing fails, where the type supports the formula's
/// operators, on an unbound identifier, and the failure names an identifier
/// of the formula that is bound to nothing.
pub proof fn lemma_unbound_identifier_is_reported<T: ArithmeticType>(
    postfix: Seq<Lexeme>,
    bindings: Map<Seq<char>, T>,
    missing: Seq<char>,
    out: Result<T, Failure>,
)
    requires
        well_formed(postfix),
        supported::<T>(postfix),
        mentions(postfix, missing),
        !bindings.contains_key(missing),
        evaluates_to(postfix, bindings, out),
    ensures
        out matches Err(Failure::VariableNotDefined(name)) && mentions(postfix, name)
            && !bindings.contains_key(name),
{
    let k = choose|k: int| 0 <= k < postfix.len() && #[trigger] postfix[k] == Lexeme::Name(missing);
    assert(postfix[k] matches Lexeme::Name(name) && !bindings.contains_key(name));
    lemma_unbound_run(postfix, 0, Seq::<Operand<T>>::empty(), bindings, out);
}

/// An operator that the type does not support fails on two bound operands
/// with the failure that names the operator, whatever their values.
pub proof fn lemma_unsupported_operator_is_reported<T: ArithmeticType>(
    left: Seq<char>,
    right: Seq<char>,
    op: Operator,
    bindings: Map<Seq<char>, T>,
    out: Result<T, Failure>,
)
    requires
        !T::supports(op),
        bindings.contains_key(left),
        bindings.contains_key(right),
        evaluates_to(
            seq![Lexeme::Name(left), Lexeme::Name(right), Lexeme::Operator(op)],
            bindings,
            out,
        ),
    ensures
        out == Err::<T, Failure>(Failure::OperatorNotSupported(op)),
{
    let postfix = seq![Lexeme::Name(left), Lexeme::Name(right), Lexeme::Operator(op)];
    let s0 = Seq::<Operand<T>>::empty();
    let s1 = s0.push(Operand::Named(left));
    let s2 = s1.push(Operand::Named(right));
    assert(runs_to(postfix, 1, s1, bindings, out));
    assert(runs_to(postfix, 2, s2, bindings, out));
}

} // verus!
