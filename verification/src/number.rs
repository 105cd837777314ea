//! JSON numbers.

use vstd::prelude::*;

verus! {

/// A JSON number, held as the bit pattern of an IEEE 754 double.
///
/// The library never computes with numbers; it only carries them between a
/// geometry and its JSON form. Two numbers are equal when their bit patterns
/// are equal.
#[derive(Clone, Copy, Debug, PartialEq, Eq, Structural)]
pub struct Number {
    pub bits: u64,
}

impl View for Number {
    type V = Number;

    open spec fn view(&self) -> Number {
        *self
    }
}

impl DeepView for Number {
    type V = Number;

    open spec fn deep_view(&self) -> Number {
        *self
    }
}

impl Number {
    /// The number whose double has the bit pattern `bits`.
    pub fn from_bits(bits: u64) -> (n: Number)
        ensures
            n.bits == bits,
    {
        Number { bits }
    }

    /// The bit pattern of the number's double.
    pub fn to_bits(&self) -> (bits: u64)
        ensures
            bits == self.bits,
    {
        self.bits
    }
}

} // verus!
