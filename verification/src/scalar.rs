//! Real-valued measurements, carried through the library without arithmetic.

use vstd::prelude::*;

verus! {

/// An IEEE 754 binary64 number held as its 64-bit pattern.
///
/// Scores, distances and thresholds are produced and consumed outside this
/// library; here they are only stored and handed back, so the bit pattern is
/// all that is needed, and two values are equal when their patterns are.
#[derive(Clone, Copy, Debug, PartialEq, Eq, Structural)]
pub struct Double {
    pub bits: u64,
}

impl Double {
    /// Wraps a bit pattern.
    pub fn from_bits(bits: u64) -> (d: Double)
        ensures
            d.bits == bits,
    {
        Double { bits }
    }

    /// The bit pattern.
    pub fn to_bits(self) -> (bits: u64)
        ensures
            bits == self.bits,
    {
        self.bits
    }
}

} // verus!
