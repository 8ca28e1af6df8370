//! The two secure value types: which operators each supports, and the term
//! that a formula asks to be computed on encrypted operands.
//!
//! The library never touches a ciphertext. It evaluates a formula on terms,
//! which record what is to be applied to what, and declines an operator that
//! the secure type of the width does not support; the term that comes out is
//! computed on the ciphertexts by whoever holds them.

use vstd::prelude::*;
use crate::arith::ArithmeticType;
use crate::execute::{evaluates_to, finish, resolve, runs_to, Failure, Operand};
use crate::expression::{postfix_of, Expr};
use crate::token::Lexeme;
use crate::ident::Ident;
use crate::operator::Operator;
use crate::width::Width;

verus! {

/// Whether the narrow secure type supports the operator: every operator but
/// the two shifts.
pub open spec fn narrow_supports(op: Operator) -> bool {
    op != Operator::BitLeftShift && op != Operator::BitRightShift
}

/// Whether the wide secure type supports the operator: addition,
/// subtraction, multiplication and the three bitwise operators.
pub open spec fn wide_supports(op: Operator) -> bool {
    op == Operator::Addition || op == Operator::Subtraction || op == Operator::Multiplication
        || op == Operator::BitAnd || op == Operator::BitOr || op == Operator::BitXor
}

/// Whether the secure type of the given width supports the operator.
pub fn secure_supports(width: Width, op: Operator) -> (r: bool)
    ensures
        r == match width {
            Width::Narrow => narrow_supports(op),
            Width::Wide => wide_supports(op),
        },
{
    match width {
        Width::Narrow => match op {
            Operator::BitLeftShift | Operator::BitRightShift => false,
            _ => true,
        },
        Width::Wide => match op {
            Operator::Addition
            | Operator::Subtraction
            | Operator::Multiplication
            | Operator::BitAnd
            | Operator::BitOr
            | Operator::BitXor => true,
            _ => false,
        },
    }
}

/// What is to be computed: a named operand, or an operator applied to two
/// terms, the left one first.
#[derive(Debug, PartialEq, Eq)]
pub enum Term {
    Operand(Ident),
    Applied(Operator, Box<Term>, Box<Term>),
}

impl Term {
    /// The expression that the term stands for.
    pub open spec fn expr(self) -> Expr
        decreases self,
    {
        match self {
            Term::Operand(ident) => Expr::Var(ident@),
            Term::Applied(op, left, right) => Expr::Bin(
                op,
                Box::new((*left).expr()),
                Box::new((*right).expr()),
            ),
        }
    }
}

impl View for Term {
    type V = Expr;

    open spec fn view(&self) -> Expr {
        self.expr()
    }
}

impl Clone for Term {
    fn clone(&self) -> (r: Self)
        ensures
            r@ == self@,
        decreases self,
    {
        match self {
            Term::Operand(ident) => Term::Operand(ident.clone()),
            Term::Applied(op, left, right) => {
                let l = (&**left).clone();
                let r = (&**right).clone();
                Term::Applied(*op, Box::new(l), Box::new(r))
            },
        }
    }
}

impl Term {
    /// The term of `op` applied to the two terms.
    pub fn apply(&self, rhs: &Term, op: Operator) -> (r: Term)
        ensures
            r@ == Expr::Bin(op, Box::new(self@), Box::new(rhs@)),
    {
        Term::Applied(op, Box::new(self.clone()), Box::new(rhs.clone()))
    }
}

/// A term on operands of three bits.
#[derive(Debug, PartialEq, Eq)]
pub struct NarrowTerm(pub Term);

/// A term on operands of sixteen bits.
#[derive(Debug, PartialEq, Eq)]
pub struct WideTerm(pub Term);

impl View for NarrowTerm {
    type V = Expr;

    open spec fn view(&self) -> Expr {
        self.0@
    }
}

impl View for WideTerm {
    type V = Expr;

    open spec fn view(&self) -> Expr {
        self.0@
    }
}

impl NarrowTerm {
    /// The term that is the operand of this name.
    pub fn operand(ident: Ident) -> (r: NarrowTerm)
        ensures
            r@ == Expr::Var(ident@),
    {
        NarrowTerm(Term::Operand(ident))
    }
}

impl WideTerm {
    /// The term that is the operand of this name.
    pub fn operand(ident: Ident) -> (r: WideTerm)
        ensures
            r@ == Expr::Var(ident@),
    {
        WideTerm(Term::Operand(ident))
    }
}

impl ArithmeticType for NarrowTerm {
    open spec fn supports(op: Operator) -> bool {
        narrow_supports(op)
    }

    /// An operator gives the term of its application.
    open spec fn combines(&self, rhs: &Self, op: Operator, out: Self) -> bool {
        out@ == Expr::Bin(op, Box::new(self@), Box::new(rhs@))
    }

    fn apply_operator(&self, rhs: &Self, op: Operator) -> (r: Option<Self>) {
        match op {
            Operator::Addition => Some(NarrowTerm(self.0.apply(&rhs.0, op))),
            Operator::Subtraction => Some(NarrowTerm(self.0.apply(&rhs.0, op))),
            Operator::Multiplication => Some(NarrowTerm(self.0.apply(&rhs.0, op))),
            Operator::Division => Some(NarrowTerm(self.0.apply(&rhs.0, op))),
            Operator::BitAnd => Some(NarrowTerm(self.0.apply(&rhs.0, op))),
            Operator::BitOr => Some(NarrowTerm(self.0.apply(&rhs.0, op))),
            Operator::BitXor => Some(NarrowTerm(self.0.apply(&rhs.0, op))),
            Operator::BitLeftShift => None,
            Operator::BitRightShift => None,
            Operator::Less => Some(NarrowTerm(self.0.apply(&rhs.0, op))),
            Operator::Greater => Some(NarrowTerm(self.0.apply(&rhs.0, op))),
            Operator::LessEqual => Some(NarrowTerm(self.0.apply(&rhs.0, op))),
            Operator::GreaterEqual => Some(NarrowTerm(self.0.apply(&rhs.0, op))),
            Operator::EqualEqual => Some(NarrowTerm(self.0.apply(&rhs.0, op))),
        }
    }
}

impl ArithmeticType for WideTerm {
    open spec fn supports(op: Operator) -> bool {
        wide_supports(op)
    }

    /// An operator gives the term of its application.
    open spec fn combines(&self, rhs: &Self, op: Operator, out: Self) -> bool {
        out@ == Expr::Bin(op, Box::new(self@), Box::new(rhs@))
    }

    fn apply_operator(&self, rhs: &Self, op: Operator) -> (r: Option<Self>) {
        match op {
            Operator::Addition => Some(WideTerm(self.0.apply(&rhs.0, op))),
            Operator::Subtraction => Some(WideTerm(self.0.apply(&rhs.0, op))),
            Operator::Multiplication => Some(WideTerm(self.0.apply(&rhs.0, op))),
            Operator::Division => None,
            Operator::BitAnd => Some(WideTerm(self.0.apply(&rhs.0, op))),
            Operator::BitOr => Some(WideTerm(self.0.apply(&rhs.0, op))),
            Operator::BitXor => Some(WideTerm(self.0.apply(&rhs.0, op))),
            Operator::BitLeftShift => None,
            Operator::BitRightShift => None,
            Operator::Less => None,
            Operator::Greater => None,
            Operator::LessEqual => None,
            Operator::GreaterEqual => None,
            Operator::EqualEqual => None,
        }
    }
}

/// Whether every operator of the expression is one that the type supports.
pub open spec fn operators_supported<T: ArithmeticType>(e: Expr) -> bool
    decreases e,
{
    match e {
        Expr::Var(_) => true,
        Expr::Bin(op, left, right) => T::supports(op) && operators_supported::<T>(*left)
            && operators_supported::<T>(*right),
    }
}

/// Whether every variable of the expression is bound to the term that is
/// the operand of its name.
pub open spec fn operands_bound<T: View<V = Expr>>(e: Expr, bindings: Map<Seq<char>, T>) -> bool
    decreases e,
{
    match e {
        Expr::Var(name) => bindings.contains_key(name) && bindings[name]@ == Expr::Var(name),
        Expr::Bin(_, left, right) => operands_bound(*left, bindings) && operands_bound(
            *right,
            bindings,
        ),
    }
}

/// Whether the type's operator gives the term of its application.
pub open spec fn builds_terms<T: ArithmeticType + View<V = Expr>>() -> bool {
    forall|lhs: T, rhs: T, op: Operator, out: T| #[trigger]
        lhs.combines(&rhs, op, out) ==> out@ == Expr::Bin(op, Box::new(lhs@), Box::new(rhs@))
}

/// Whether the operand stands for the expression under the bindings.
spec fn stands_for<T: View<V = Expr>>(operand: Operand<T>, e: Expr, bindings: Map<Seq<char>, T>) -> bool {
    resolve(operand, bindings) matches Some(term) && term@ == e
}

proof fn lemma_term_run<T: ArithmeticType + View<V = Expr>>(
    tokens: Seq<Lexeme>,
    i: int,
    e: Expr,
    stack: Seq<Operand<T>>,
    bindings: Map<Seq<char>, T>,
    out: Result<T, Failure>,
) -> (result: Operand<T>)
    requires
        0 <= i,
        i + postfix_of(e).len() <= tokens.len(),
        tokens.subrange(i, i + postfix_of(e).len()) == postfix_of(e),
        builds_terms::<T>(),
        operators_supported::<T>(e),
        operands_bound(e, bindings),
        runs_to(tokens, i, stack, bindings, out),
    ensures
        stands_for(result, e, bindings),
        runs_to(tokens, i + postfix_of(e).len(), stack.push(result), bindings, out),
    decreases e,
{
    let whole = postfix_of(e);
    let part = tokens.subrange(i, i + whole.len());
    match e {
        Expr::Var(name) => {
            assert(tokens[i] == part[0]);
            Operand::Named(name)
        },
        Expr::Bin(op, left, right) => {
            let pl = postfix_of(*left);
            let pr = postfix_of(*right);
            let m = i + pl.len();
            let n = m + pr.len();
            assert(tokens.subrange(i, m) =~= pl) by {
                assert forall|k: int| 0 <= k < pl.len() implies tokens.subrange(i, m)[k] == pl[k] by {
                    assert(part[k] == whole[k]);
                }
            }
            assert(tokens.subrange(m, n) =~= pr) by {
                assert forall|k: int| 0 <= k < pr.len() implies tokens.subrange(m, n)[k] == pr[k] by {
                    assert(part[pl.len() + k] == whole[pl.len() + k]);
                }
            }
            assert(tokens[n] == Lexeme::Operator(op)) by {
                let at = (pl.len() + pr.len()) as int;
                assert(part[at] == whole[at]);
            }
            let lhs = lemma_term_run(tokens, i, *left, stack, bindings, out);
            let rhs = lemma_term_run(tokens, m, *right, stack.push(lhs), bindings, out);
            let both = stack.push(lhs).push(rhs);
            assert(both[both.len() - 2] == lhs);
            assert(both[both.len() - 1] == rhs);
            assert(both.take(both.len() - 2) =~= stack);
            let x = resolve(lhs, bindings)->Some_0;
            let y = resolve(rhs, bindings)->Some_0;
            let value = choose|value: T| #[trigger]
                x.combines(&y, op, value) && runs_to(
                    tokens,
                    n + 1,
                    both.take(both.len() - 2).push(Operand::Computed(value)),
                    bindings,
                    out,
                );
            Operand::Computed(value)
        },
    }
}

/// Evaluating an expression in postfix order on terms gives the term of the
/// expression itself, where every variable is bound to its operand and the
/// type supports every operator: what is handed on to be computed is what
/// the formula says.
pub proof fn lemma_term_of_postfix_is_the_expression<T: ArithmeticType + View<V = Expr>>(
    e: Expr,
    bindings: Map<Seq<char>, T>,
    out: Result<T, Failure>,
)
    requires
        builds_terms::<T>(),
        operators_supported::<T>(e),
        operands_bound(e, bindings),
        evaluates_to(postfix_of(e), bindings, out),
    ensures
        out matches Ok(term) && term@ == e,
{
    let tokens = postfix_of(e);
    let empty = Seq::<Operand<T>>::empty();
    assert(tokens.subrange(0, tokens.len() as int) =~= tokens);
    let result = lemma_term_run(tokens, 0, e, empty, bindings, out);
    assert(out == finish(empty.push(result), bindings));
}

/// The terms of both widths are built by their operators.
pub proof fn lemma_terms_are_built()
    ensures
        builds_terms::<NarrowTerm>(),
        builds_terms::<WideTerm>(),
{
}

} // verus!
