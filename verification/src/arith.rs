//! The arithmetic capability: what a value type offers to the evaluator.

use vstd::prelude::*;
use crate::operator::Operator;

verus! {

/// A type of values that the evaluator can compute on.
///
/// A type declares which operators it supports ([`Self::supports`]) and what
/// a supported operator may give ([`Self::combines`]); applying an operator
/// either gives such a value or declines. No type inherits a declaration.
pub trait ArithmeticType: Sized {
    /// Whether values of the type can be combined by `op`.
    spec fn supports(op: Operator) -> bool;

    /// Whether `out` is a value that combining `self` (left) and `rhs`
    /// (right) by `op` may give.
    spec fn combines(&self, rhs: &Self, op: Operator, out: Self) -> bool;

    /// Combines `self` (left) and `rhs` (right) by `op`; `None` where the
    /// type does not support the operator.
    fn apply_operator(&self, rhs: &Self, op: Operator) -> (r: Option<Self>)
        ensures
            r is Some <==> Self::supports(op),
            r matches Some(out) ==> self.combines(rhs, op, out),
    ;
}

/// One for true and zero for false.
pub open spec fn truth(b: bool) -> u32 {
    if b {
        1
    } else {
        0
    }
}

/// What an operator gives on two plain 32-bit integers: sums, differences
/// and products modulo 2^32, the integer quotient (zero where the divisor is
/// zero), shifts by the amount modulo 32, the bitwise operations, and one or
/// zero for a comparison that holds or fails.
pub open spec fn plain_result(lhs: u32, rhs: u32, op: Operator) -> u32 {
    match op {
        Operator::Multiplication => ((lhs * rhs) % 0x1_0000_0000) as u32,
        Operator::Division => if rhs == 0 {
            0
        } else {
            lhs / rhs
        },
        Operator::Addition => ((lhs + rhs) % 0x1_0000_0000) as u32,
        Operator::Subtraction => ((lhs - rhs) % 0x1_0000_0000) as u32,
        Operator::BitAnd => lhs & rhs,
        Operator::BitOr => lhs | rhs,
        Operator::BitXor => lhs ^ rhs,
        Operator::BitLeftShift => lhs << (rhs % 32),
        Operator::BitRightShift => lhs >> (rhs % 32),
        Operator::Less => truth(lhs < rhs),
        Operator::Greater => truth(lhs > rhs),
        Operator::LessEqual => truth(lhs <= rhs),
        Operator::GreaterEqual => truth(lhs >= rhs),
        Operator::EqualEqual => truth(lhs == rhs),
    }
}

/// One for true and zero for false.
fn flag(b: bool) -> (r: u32)
    ensures
        r == truth(b),
{
    if b {
        1
    } else {
        0
    }
}

impl ArithmeticType for u32 {
    /// Plain integers support every operator.
    open spec fn supports(op: Operator) -> bool {
        true
    }

    open spec fn combines(&self, rhs: &Self, op: Operator, out: Self) -> bool {
        out == plain_result(*self, *rhs, op)
    }

    fn apply_operator(&self, rhs: &Self, op: Operator) -> (r: Option<Self>)
        ensures
            r == Some(plain_result(*self, *rhs, op)),
    {
        let lhs = *self;
        let rhs = *rhs;
        let result = match op {
            Operator::Multiplication => lhs.wrapping_mul(rhs),
            Operator::Division => match lhs.checked_div(rhs) {
                Some(quotient) => quotient,
                None => 0,
            },
            Operator::Addition => lhs.wrapping_add(rhs),
            Operator::Subtraction => lhs.wrapping_sub(rhs),
            Operator::BitAnd => lhs & rhs,
            Operator::BitOr => lhs | rhs,
            Operator::BitXor => lhs ^ rhs,
            Operator::BitLeftShift => lhs.wrapping_shl(rhs),
            Operator::BitRightShift => lhs.wrapping_shr(rhs),
            Operator::Less => flag(lhs < rhs),
            Operator::Greater => flag(lhs > rhs),
            Operator::LessEqual => flag(lhs <= rhs),
            Operator::GreaterEqual => flag(lhs >= rhs),
            Operator::EqualEqual => flag(lhs == rhs),
        };
        Some(result)
    }
}

/// The sum of `a` and `b`, multiplied by `c`; `None` where the type
/// declines the addition or the multiplication.
pub fn fhe_computation<T: ArithmeticType>(a: &T, b: &T, c: &T) -> (r: Option<T>)
    ensures
        r is Some <==> T::supports(Operator::Addition) && T::supports(Operator::Multiplication),
        r matches Some(product) ==> exists|sum: T| #[trigger]
            a.combines(b, Operator::Addition, sum) && sum.combines(
                c,
                Operator::Multiplication,
                product,
            ),
{
    match a.apply_operator(b, Operator::Addition) {
        Some(sum) => sum.apply_operator(c, Operator::Multiplication),
        None => None,
    }
}

} // verus!
