//! What a formula means: expressions, their value on plain integers, and the
//! agreement of the converter and the evaluator with that value.

use vstd::prelude::*;
use crate::arith::plain_result;
use crate::execute::{finish, resolve, unbound, Failure, Operand};
use crate::operator::Operator;
use crate::formula::FormulaFailure;
use crate::plain::{plain_formula_value, plain_run, plain_value};
use crate::tokenizer::{tokenize_spec, TokenizationError};
use crate::postfix::{
    close_group, convert, drain, make_room, to_postfix_spec, yields_to, TransformationError,
};
use crate::token::Lexeme;

verus! {

/// An expression: a variable, or an operator applied to two expressions.
pub enum Expr {
    Var(Seq<char>),
    Bin(Operator, Box<Expr>, Box<Expr>),
}

/// The expression in postfix order: the left operand, the right operand,
/// then the operator.
pub open spec fn postfix_of(e: Expr) -> Seq<Lexeme>
    decreases e,
{
    match e {
        Expr::Var(name) => seq![Lexeme::Name(name)],
        Expr::Bin(op, left, right) => postfix_of(*left) + postfix_of(*right) + seq![
            Lexeme::Operator(op),
        ],
    }
}

/// What the expression leaves for the operator above it: its name for a
/// variable, its value for an application. The operands of an application
/// are worked out from left to right; then the left and the right operand
/// are looked up, in this order, and a name bound to nothing is the failure
/// that names it.
pub open spec fn operand(e: Expr, bindings: Map<Seq<char>, u32>) -> Result<Operand<u32>, Failure>
    decreases e,
{
    match e {
        Expr::Var(name) => Ok(Operand::Named(name)),
        Expr::Bin(op, left, right) => match operand(*left, bindings) {
            Err(failure) => Err(failure),
            Ok(lhs) => match operand(*right, bindings) {
                Err(failure) => Err(failure),
                Ok(rhs) => match (resolve(lhs, bindings), resolve(rhs, bindings)) {
                    (None, _) => Err(unbound(lhs)),
                    (Some(_), None) => Err(unbound(rhs)),
                    (Some(x), Some(y)) => Ok(Operand::Computed(plain_result(x, y, op))),
                },
            },
        },
    }
}

/// The value of the expression on plain integers. A lone variable that is
/// bound to nothing is the failure that names it.
pub open spec fn value(e: Expr, bindings: Map<Seq<char>, u32>) -> Result<u32, Failure> {
    match operand(e, bindings) {
        Err(failure) => Err(failure),
        Ok(result) => match resolve(result, bindings) {
            Some(v) => Ok(v),
            None => Err(unbound(result)),
        },
    }
}

proof fn lemma_run_expression(
    tokens: Seq<Lexeme>,
    i: int,
    e: Expr,
    stack: Seq<Operand<u32>>,
    bindings: Map<Seq<char>, u32>,
)
    requires
        0 <= i,
        i + postfix_of(e).len() <= tokens.len(),
        tokens.subrange(i, i + postfix_of(e).len()) == postfix_of(e),
    ensures
        plain_run(tokens, i, stack, bindings) == match operand(e, bindings) {
            Err(failure) => Err(failure),
            Ok(result) => plain_run(
                tokens,
                i + postfix_of(e).len(),
                stack.push(result),
                bindings,
            ),
        },
    decreases e,
{
    let whole = postfix_of(e);
    match e {
        Expr::Var(name) => {
            assert(tokens[i] == whole[0]);
        },
        Expr::Bin(op, left, right) => {
            let pl = postfix_of(*left);
            let pr = postfix_of(*right);
            let m = i + pl.len();
            let n = m + pr.len();
            assert(tokens.subrange(i, m) =~= pl) by {
                assert forall|k: int| 0 <= k < pl.len() implies tokens.subrange(i, m)[k] == pl[k] by {
                    assert(tokens.subrange(i, i + whole.len())[k] == whole[k]);
                }
            }
            assert(tokens.subrange(m, n) =~= pr) by {
                assert forall|k: int| 0 <= k < pr.len() implies tokens.subrange(m, n)[k] == pr[k] by {
                    assert(tokens.subrange(i, i + whole.len())[pl.len() + k] == whole[pl.len() + k]);
                }
            }
            assert(tokens[n] == Lexeme::Operator(op)) by {
                let at = (pl.len() + pr.len()) as int;
                assert(tokens.subrange(i, i + whole.len())[at] == whole[at]);
            }
            lemma_run_expression(tokens, i, *left, stack, bindings);
            match operand(*left, bindings) {
                Err(_) => {},
                Ok(lhs) => {
                    lemma_run_expression(tokens, m, *right, stack.push(lhs), bindings);
                    match operand(*right, bindings) {
                        Err(_) => {},
                        Ok(rhs) => {
                            let both = stack.push(lhs).push(rhs);
                            assert(both[both.len() - 2] == lhs);
                            assert(both[both.len() - 1] == rhs);
                            assert(both.take(both.len() - 2) =~= stack);
                        },
                    }
                },
            }
        },
    }
}

/// Evaluating an expression in postfix order gives the expression's value.
pub proof fn lemma_postfix_evaluates_to_the_value(e: Expr, bindings: Map<Seq<char>, u32>)
    ensures
        plain_value(postfix_of(e), bindings) == value(e, bindings),
{
    let tokens = postfix_of(e);
    let empty = Seq::<Operand<u32>>::empty();
    assert(tokens.subrange(0, tokens.len() as int) =~= tokens);
    lemma_run_expression(tokens, 0, e, empty, bindings);
    match operand(e, bindings) {
        Err(_) => {},
        Ok(result) => {
            assert(plain_run(tokens, tokens.len() as int, empty.push(result), bindings) == finish(
                empty.push(result),
                bindings,
            ));
        },
    }
}

/// A formula as it is written: a variable, a formula in parentheses, or two
/// formulas with an operator between them.
pub enum Infix {
    Var(Seq<char>),
    Paren(Box<Infix>),
    Bin(Operator, Box<Infix>, Box<Infix>),
}

/// The rank of the operator that a written formula exposes to its
/// neighbours: that of its operator, or a rank above every operator's for a
/// variable and for a formula in parentheses.
pub open spec fn exposed_rank(t: Infix) -> nat {
    match t {
        Infix::Bin(op, _, _) => op.rank(),
        _ => 8,
    }
}

/// Whether the formula is written so that it reads as it is meant: the left
/// operand of an operator exposes no operator that binds looser than it, and
/// the right operand only operators that bind tighter. An operand that
/// does not meet this stands in parentheses.
pub open spec fn well_written(t: Infix) -> bool
    decreases t,
{
    match t {
        Infix::Var(_) => true,
        Infix::Paren(inner) => well_written(*inner),
        Infix::Bin(op, left, right) => {
            &&& well_written(*left)
            &&& well_written(*right)
            &&& exposed_rank(*left) >= op.rank()
            &&& exposed_rank(*right) > op.rank()
        },
    }
}

/// The tokens of a written formula.
pub open spec fn written(t: Infix) -> Seq<Lexeme>
    decreases t,
{
    match t {
        Infix::Var(name) => seq![Lexeme::Name(name)],
        Infix::Paren(inner) => seq![Lexeme::Open] + written(*inner) + seq![Lexeme::Close],
        Infix::Bin(op, left, right) => written(*left) + seq![Lexeme::Operator(op)] + written(
            *right,
        ),
    }
}

/// The expression that a written formula means: the formula without its parentheses.
pub open spec fn meaning(t: Infix) -> Expr
    decreases t,
{
    match t {
        Infix::Var(name) => Expr::Var(name),
        Infix::Paren(inner) => meaning(*inner),
        Infix::Bin(op, left, right) => Expr::Bin(
            op,
            Box::new(meaning(*left)),
            Box::new(meaning(*right)),
        ),
    }
}

/// The operators of a written formula that still wait on the converter's
/// stack when the formula has been read, from the bottom up.
spec fn pending(t: Infix) -> Seq<Lexeme>
    decreases t,
{
    match t {
        Infix::Bin(op, _, right) => seq![Lexeme::Operator(op)] + pending(*right),
        _ => Seq::empty(),
    }
}

/// What the converter has put out when a written formula has been read.
spec fn emitted(t: Infix) -> Seq<Lexeme>
    decreases t,
{
    match t {
        Infix::Var(name) => seq![Lexeme::Name(name)],
        Infix::Paren(inner) => postfix_of(meaning(*inner)),
        Infix::Bin(_, left, right) => postfix_of(meaning(*left)) + emitted(*right),
    }
}

/// Whether every entry is an operator of at least the given rank.
spec fn ranked_from(entries: Seq<Lexeme>, rank: nat) -> bool {
    forall|k: int|
        0 <= k < entries.len() ==> ((#[trigger] entries[k]) matches Lexeme::Operator(op)
            && op.rank() >= rank)
}

/// Whether the top of the stack stays where it is when an operator of at
/// least the given rank arrives.
spec fn settled(stack: Seq<Lexeme>, rank: nat) -> bool {
    stack.len() > 0 ==> (stack.last() matches Lexeme::Operator(op) ==> op.rank() < rank)
}

proof fn lemma_pending(t: Infix)
    requires
        well_written(t),
    ensures
        ranked_from(pending(t), exposed_rank(t)),
        emitted(t) + pending(t).reverse() == postfix_of(meaning(t)),
    decreases t,
{
    match t {
        Infix::Var(name) => {
            assert(emitted(t) + pending(t).reverse() =~= postfix_of(meaning(t)));
        },
        Infix::Paren(inner) => {
            assert(emitted(t) + pending(t).reverse() =~= postfix_of(meaning(t)));
        },
        Infix::Bin(op, left, right) => {
            lemma_pending(*right);
            let first = seq![Lexeme::Operator(op)];
            assert(pending(t).reverse() =~= pending(*right).reverse() + first);
            assert(emitted(t) + pending(t).reverse() =~= postfix_of(meaning(*left)) + (emitted(
                *right,
            ) + pending(*right).reverse()) + first);
            assert forall|k: int| 0 <= k < pending(t).len() implies ((
            #[trigger] pending(t)[k]) matches Lexeme::Operator(o) && o.rank() >= op.rank()) by {
                if k > 0 {
                    assert(pending(t)[k] == pending(*right)[k - 1]);
                }
            }
        },
    }
}

proof fn lemma_make_room_pops(op: Operator, base: Seq<Lexeme>, waiting: Seq<Lexeme>, out: Seq<Lexeme>)
    requires
        ranked_from(waiting, op.rank()),
        settled(base, op.rank()),
    ensures
        make_room(op, base + waiting, out) == (base, out + waiting.reverse()),
    decreases waiting.len(),
{
    if waiting.len() == 0 {
        assert(base + waiting =~= base);
        assert(out + waiting.reverse() =~= out);
    } else {
        let top = waiting.last();
        assert((base + waiting).last() == top);
        assert(yields_to(top, op));
        assert((base + waiting).drop_last() =~= base + waiting.drop_last());
        lemma_make_room_pops(op, base, waiting.drop_last(), out.push(top));
        assert(out.push(top) + waiting.drop_last().reverse() =~= out + waiting.reverse());
    }
}

proof fn lemma_close_group_pops(base: Seq<Lexeme>, waiting: Seq<Lexeme>, out: Seq<Lexeme>)
    requires
        ranked_from(waiting, 0),
    ensures
        close_group(base.push(Lexeme::Open) + waiting, out) == Some(
            (base, out + waiting.reverse()),
        ),
    decreases waiting.len(),
{
    let opened = base.push(Lexeme::Open);
    if waiting.len() == 0 {
        assert(opened + waiting =~= opened);
        assert(opened.drop_last() =~= base);
        assert(out + waiting.reverse() =~= out);
    } else {
        let top = waiting.last();
        assert((opened + waiting).last() == top);
        assert((opened + waiting).drop_last() =~= opened + waiting.drop_last());
        lemma_close_group_pops(base, waiting.drop_last(), out.push(top));
        assert(out.push(top) + waiting.drop_last().reverse() =~= out + waiting.reverse());
    }
}

proof fn lemma_drain_pops(waiting: Seq<Lexeme>, out: Seq<Lexeme>)
    requires
        ranked_from(waiting, 0),
    ensures
        drain(waiting, out) == Ok::<Seq<Lexeme>, TransformationError>(out + waiting.reverse()),
    decreases waiting.len(),
{
    if waiting.len() == 0 {
        assert(out + waiting.reverse() =~= out);
    } else {
        let top = waiting.last();
        lemma_drain_pops(waiting.drop_last(), out.push(top));
        assert(out.push(top) + waiting.drop_last().reverse() =~= out + waiting.reverse());
    }
}

proof fn lemma_ranked_from_weaker(entries: Seq<Lexeme>, rank: nat, lower: nat)
    requires
        ranked_from(entries, rank),
        lower <= rank,
    ensures
        ranked_from(entries, lower),
{
}

proof fn lemma_convert_written(
    tokens: Seq<Lexeme>,
    i: int,
    t: Infix,
    stack: Seq<Lexeme>,
    out: Seq<Lexeme>,
)
    requires
        0 <= i,
        i + written(t).len() <= tokens.len(),
        tokens.subrange(i, i + written(t).len()) == written(t),
        well_written(t),
        settled(stack, exposed_rank(t)),
    ensures
        convert(tokens, i, stack, out) == convert(
            tokens,
            i + written(t).len(),
            stack + pending(t),
            out + emitted(t),
        ),
    decreases t,
{
    let whole = written(t);
    let part = tokens.subrange(i, i + whole.len());
    match t {
        Infix::Var(name) => {
            assert(tokens[i] == part[0]);
            assert(out.push(tokens[i]) =~= out + emitted(t));
            assert(stack + pending(t) =~= stack);
        },
        Infix::Paren(inner) => {
            let w = written(*inner);
            let a = i + 1;
            let n = a + w.len();
            assert(tokens[i] == Lexeme::Open) by {
                assert(part[0] == whole[0]);
            }
            assert(tokens.subrange(a, n) =~= w) by {
                assert forall|k: int| 0 <= k < w.len() implies tokens.subrange(a, n)[k] == w[k] by {
                    assert(part[1 + k] == whole[1 + k]);
                }
            }
            assert(tokens[n] == Lexeme::Close) by {
                let at = 1 + w.len() as int;
                assert(part[at] == whole[at]);
            }
            let opened = stack.push(Lexeme::Open);
            lemma_convert_written(tokens, a, *inner, opened, out);
            lemma_pending(*inner);
            lemma_ranked_from_weaker(pending(*inner), exposed_rank(*inner), 0);
            lemma_close_group_pops(stack, pending(*inner), out + emitted(*inner));
            assert(out + emitted(*inner) + pending(*inner).reverse() =~= out + (emitted(*inner)
                + pending(*inner).reverse()));
            assert(stack + pending(t) =~= stack);
        },
        Infix::Bin(op, left, right) => {
            let wl = written(*left);
            let wr = written(*right);
            let m = i + wl.len();
            let b = m + 1;
            let n = b + wr.len();
            assert(tokens.subrange(i, m) =~= wl) by {
                assert forall|k: int| 0 <= k < wl.len() implies tokens.subrange(i, m)[k] == wl[k] by {
                    assert(part[k] == whole[k]);
                }
            }
            assert(tokens[m] == Lexeme::Operator(op)) by {
                let at = wl.len() as int;
                assert(part[at] == whole[at]);
            }
            assert(tokens.subrange(b, n) =~= wr) by {
                assert forall|k: int| 0 <= k < wr.len() implies tokens.subrange(b, n)[k] == wr[k] by {
                    let at = wl.len() as int + 1 + k;
                    assert(part[at] == whole[at]);
                }
            }
            lemma_convert_written(tokens, i, *left, stack, out);
            lemma_pending(*left);
            lemma_ranked_from_weaker(pending(*left), exposed_rank(*left), op.rank());
            let o1 = out + emitted(*left);
            lemma_make_room_pops(op, stack, pending(*left), o1);
            let o2 = out + postfix_of(meaning(*left));
            assert(o1 + pending(*left).reverse() =~= o2) by {
                assert(o1 + pending(*left).reverse() =~= out + (emitted(*left) + pending(
                    *left,
                ).reverse()));
            }
            let held = stack.push(Lexeme::Operator(op));
            lemma_convert_written(tokens, b, *right, held, o2);
            assert(held + pending(*right) =~= stack + pending(t));
            assert(o2 + emitted(*right) =~= out + emitted(t));
        },
    }
}

/// The converter brings every well written formula into the postfix order
/// of the expression that it means: operators are applied in the order of
/// their ranks, from left to right among equal ranks, and parentheses group.
pub proof fn lemma_written_converts_to_postfix(t: Infix)
    requires
        well_written(t),
    ensures
        to_postfix_spec(written(t)) == Ok::<Seq<Lexeme>, TransformationError>(
            postfix_of(meaning(t)),
        ),
{
    let tokens = written(t);
    let empty = Seq::<Lexeme>::empty();
    assert(tokens.subrange(0, tokens.len() as int) =~= tokens);
    lemma_convert_written(tokens, 0, t, empty, empty);
    lemma_pending(t);
    lemma_ranked_from_weaker(pending(t), exposed_rank(t), 0);
    assert(empty + pending(t) =~= pending(t));
    assert(empty + emitted(t) =~= emitted(t));
    lemma_drain_pops(pending(t), emitted(t));
}

/// Converting a well written formula and evaluating the result on plain
/// integers gives the value of the expression that the formula means.
pub proof fn lemma_written_formula_has_its_value(t: Infix, bindings: Map<Seq<char>, u32>)
    requires
        well_written(t),
    ensures
        to_postfix_spec(written(t)) matches Ok(postfix) && plain_value(postfix, bindings) == value(
            meaning(t),
            bindings,
        ),
{
    lemma_written_converts_to_postfix(t);
    lemma_postfix_evaluates_to_the_value(meaning(t), bindings);
}

/// A text whose tokens are a well written formula has, on plain integers,
/// the value of the expression that the formula means.
pub proof fn lemma_formula_text_has_its_value(
    text: Seq<char>,
    t: Infix,
    bindings: Map<Seq<char>, u32>,
)
    requires
        well_written(t),
        tokenize_spec(text) == Ok::<Seq<Lexeme>, TokenizationError>(written(t)),
    ensures
        plain_formula_value(text, bindings) == match value(meaning(t), bindings) {
            Ok(v) => Ok::<u32, FormulaFailure>(v),
            Err(failure) => Err::<u32, FormulaFailure>(FormulaFailure::Execution(failure)),
        },
{
    lemma_written_formula_has_its_value(t, bindings);
}

} // verus!
