//! The binary operators of a formula and their binding strength.

use vstd::prelude::*;

verus! {

/// A binary operator of the formula language, listed from the tightest binding down.
#[derive(Copy, Clone, Debug, PartialEq, Eq, Structural)]
pub enum Operator {
    Multiplication,
    Division,
    Addition,
    Subtraction,
    BitLeftShift,
    BitRightShift,
    Less,
    Greater,
    LessEqual,
    GreaterEqual,
    EqualEqual,
    BitAnd,
    BitOr,
    BitXor,
}

impl Operator {
    /// The precedence rank of the operator; a higher rank binds tighter.
    pub open spec fn rank(self) -> nat {
        match self {
            Operator::Multiplication | Operator::Division => 7,
            Operator::Addition | Operator::Subtraction => 6,
            Operator::BitLeftShift | Operator::BitRightShift => 5,
            Operator::Less
            | Operator::Greater
            | Operator::LessEqual
            | Operator::GreaterEqual
            | Operator::EqualEqual => 5,
            Operator::BitAnd => 3,
            Operator::BitXor => 2,
            Operator::BitOr => 1,
        }
    }

    /// The precedence rank of the operator as a machine integer.
    pub fn precedence(self) -> (p: usize)
        ensures
            p == self.rank(),
    {
        match self {
            Operator::Multiplication | Operator::Division => 7,
            Operator::Addition | Operator::Subtraction => 6,
            Operator::BitLeftShift | Operator::BitRightShift => 5,
            Operator::Less
            | Operator::Greater
            | Operator::LessEqual
            | Operator::GreaterEqual
            | Operator::EqualEqual => 5,
            Operator::BitAnd => 3,
            Operator::BitXor => 2,
            Operator::BitOr => 1,
        }
    }

    /// The name of the variant, as a sequence of characters.
    pub open spec fn name_spec(self) -> Seq<char> {
        match self {
            Operator::Multiplication => "Multiplication"@,
            Operator::Division => "Division"@,
            Operator::Addition => "Addition"@,
            Operator::Subtraction => "Subtraction"@,
            Operator::BitLeftShift => "BitLeftShift"@,
            Operator::BitRightShift => "BitRightShift"@,
            Operator::Less => "Less"@,
            Operator::Greater => "Greater"@,
            Operator::LessEqual => "LessEqual"@,
            Operator::GreaterEqual => "GreaterEqual"@,
            Operator::EqualEqual => "EqualEqual"@,
            Operator::BitAnd => "BitAnd"@,
            Operator::BitOr => "BitOr"@,
            Operator::BitXor => "BitXor"@,
        }
    }

    /// The name of the variant, for messages.
    pub fn name(self) -> (s: &'static str)
        ensures
            s@ == self.name_spec(),
    {
        match self {
            Operator::Multiplication => "Multiplication",
            Operator::Division => "Division",
            Operator::Addition => "Addition",
            Operator::Subtraction => "Subtraction",
            Operator::BitLeftShift => "BitLeftShift",
            Operator::BitRightShift => "BitRightShift",
            Operator::Less => "Less",
            Operator::Greater => "Greater",
            Operator::LessEqual => "LessEqual",
            Operator::GreaterEqual => "GreaterEqual",
            Operator::EqualEqual => "EqualEqual",
            Operator::BitAnd => "BitAnd",
            Operator::BitOr => "BitOr",
            Operator::BitXor => "BitXor",
        }
    }
}

} // verus!
