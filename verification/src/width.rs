//! The two operand widths and the byte that selects one on the wire.

use vstd::prelude::*;

verus! {

/// The width of the operands of one round of evaluation.
#[derive(Copy, Clone, Debug, PartialEq, Eq, Structural)]
pub enum Width {
    /// Three bits.
    Narrow,
    /// Sixteen bits.
    Wide,
}

/// What the one who asks selects before a round.
#[derive(Copy, Clone, Debug, PartialEq, Eq, Structural)]
pub enum Choice {
    /// To end the connection.
    Disconnect,
    /// To evaluate formulas on operands of the given width.
    Evaluate(Width),
}

impl Width {
    /// The number of bits of an operand.
    pub open spec fn bits_spec(self) -> nat {
        match self {
            Width::Narrow => 3,
            Width::Wide => 16,
        }
    }

    /// The number of values of an operand: two to the power of the number of bits.
    pub open spec fn modulus_spec(self) -> nat {
        match self {
            Width::Narrow => 8,
            Width::Wide => 65536,
        }
    }

    /// The number of bits of an operand.
    pub fn bits(self) -> (r: u32)
        ensures
            r == self.bits_spec(),
    {
        match self {
            Width::Narrow => 3,
            Width::Wide => 16,
        }
    }

    /// The number of values of an operand.
    pub fn modulus(self) -> (r: u32)
        ensures
            r == self.modulus_spec(),
            r == vstd::arithmetic::power2::pow2(self.bits_spec()),
    {
        proof {
            vstd::arithmetic::power2::lemma2_to64();
        }
        match self {
            Width::Narrow => 8,
            Width::Wide => 65536,
        }
    }

    /// Whether a plain value is one that an operand of the width can hold.
    pub fn fits(self, value: u32) -> (r: bool)
        ensures
            r == (value < self.modulus_spec()),
    {
        value < self.modulus()
    }

    /// A plain value brought into the range of the width.
    pub fn reduce(self, value: u32) -> (r: u32)
        ensures
            r == value as nat % self.modulus_spec(),
    {
        value % self.modulus()
    }
}

impl Choice {
    /// The byte that stands for the choice on the wire: 0 to disconnect, 1
    /// for the narrow and 2 for the wide width.
    pub open spec fn selector_spec(self) -> u8 {
        match self {
            Choice::Disconnect => 0,
            Choice::Evaluate(Width::Narrow) => 1,
            Choice::Evaluate(Width::Wide) => 2,
        }
    }

    /// The choice that a byte stands for; `None` for a byte above 2.
    pub open spec fn of_selector(byte: u8) -> Option<Choice> {
        if byte == 0 {
            Some(Choice::Disconnect)
        } else if byte == 1 {
            Some(Choice::Evaluate(Width::Narrow))
        } else if byte == 2 {
            Some(Choice::Evaluate(Width::Wide))
        } else {
            None
        }
    }

    /// The byte that stands for the choice on the wire.
    pub fn selector(self) -> (byte: u8)
        ensures
            byte == self.selector_spec(),
            byte <= 2,
            Choice::of_selector(byte) == Some(self),
    {
        match self {
            Choice::Disconnect => 0,
            Choice::Evaluate(Width::Narrow) => 1,
            Choice::Evaluate(Width::Wide) => 2,
        }
    }

    /// The choice that a byte stands for, if it stands for one.
    pub fn from_selector(byte: u8) -> (r: Option<Choice>)
        ensures
            r == Choice::of_selector(byte),
            r is Some <==> byte <= 2,
            r matches Some(choice) ==> choice.selector_spec() == byte,
    {
        if byte == 0 {
            Some(Choice::Disconnect)
        } else if byte == 1 {
            Some(Choice::Evaluate(Width::Narrow))
        } else if byte == 2 {
            Some(Choice::Evaluate(Width::Wide))
        } else {
            None
        }
    }
}

} // verus!
