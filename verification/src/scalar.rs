//! An opaque carrier for a real-valued parameter.
//!
//! The field's shaping parameters — a source's strength, the goo exponent,
//! the threshold — are real numbers that only the driver's numeric kernel
//! ever computes with. The library stores and moves them but never
//! interprets them, so it carries each one as the 64-bit pattern the driver
//! encodes it in. Two carriers are equal exactly when their patterns are.

use vstd::prelude::*;

verus! {

/// A real-valued parameter, held as the driver's 64-bit encoding of it.
#[derive(Copy, Clone, PartialEq, Eq, Structural, Debug)]
pub struct Scalar {
    pub bits: u64,
}

impl Scalar {
    /// Wrap an encoded parameter value.
    pub fn from_bits(bits: u64) -> (s: Scalar)
        ensures
            s.bits == bits,
    {
        Scalar { bits }
    }
}

} // verus!
