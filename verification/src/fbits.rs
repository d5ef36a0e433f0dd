//! Bit-level stand-in for the IEEE 754 single-precision values that travel
//! on the wire.
//!
//! The translators never do arithmetic on pinch distances or object
//! coordinates; all they ever decide is whether a value is finite. So the
//! library carries each single-precision value as its raw bit pattern, and
//! finiteness is the purely integral test that the exponent field is not
//! all ones.

use vstd::prelude::*;

verus! {

/// An IEEE 754 single-precision value, carried as its raw bit pattern.
#[derive(Clone, Copy, Debug, PartialEq, Eq, Structural)]
pub struct R32 {
    pub bits: u32,
}

/// A single-precision bit pattern encodes a finite number exactly when its
/// exponent field (bits 23..31) is not all ones; all-ones encodes an
/// infinity or a NaN.
pub open spec fn finite32(bits: u32) -> bool {
    ((bits >> 23) & 0xff) != 0xff
}

impl R32 {
    /// The finiteness test on the carried bit pattern.
    pub open spec fn spec_is_finite(self) -> bool {
        finite32(self.bits)
    }

    /// Whether the carried value is a finite number (neither an infinity
    /// nor a NaN).
    pub fn is_finite(&self) -> (r: bool)
        ensures
            r == self.spec_is_finite(),
    {
        ((self.bits >> 23) & 0xff) != 0xff
    }
}

} // verus!
