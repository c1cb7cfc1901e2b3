//! 56-bit inline floating-point records.
//!
//! An IEEE 754 double whose least significant byte is zero can be carried
//! inline in a `Value`: the seven remaining bytes of its bit pattern are
//! stored here, little-endian. This module never performs floating-point
//! arithmetic; it only stores and classifies bit patterns, so the special
//! values (zeroes, infinities, NaN) are recognised by their bits alone.

use vstd::prelude::*;

verus! {

use crate::small_integer::le56;

/// Seven high-order bytes of an IEEE 754 double bit pattern whose dropped
/// least significant byte is zero, little-endian.
#[derive(Debug, Clone, Copy, Hash, PartialEq, Eq, Structural)]
pub struct SmallF64 {
    b0: u8,
    b1: u8,
    b2: u8,
    b3: u8,
    b4: u8,
    b5: u8,
    b6: u8,
}

impl SmallF64 {
    /// The stored 56-bit pattern, as an unsigned number.
    pub closed spec fn bits(self) -> int {
        le56(self.b0, self.b1, self.b2, self.b3, self.b4, self.b5, self.b6)
    }

    /// The pattern is `+0.0`: every bit clear.
    pub open spec fn spec_is_pos_zero(self) -> bool {
        self.bits() == 0
    }

    /// The pattern is `-0.0`: only the sign bit set.
    pub open spec fn spec_is_neg_zero(self) -> bool {
        self.bits() == 0x80000000000000
    }

    /// The pattern is `+Infinity`: exponent all ones, mantissa zero, sign clear.
    pub open spec fn spec_is_pos_infinity(self) -> bool {
        self.bits() == 0x7FF00000000000
    }

    /// The pattern is `-Infinity`: exponent all ones, mantissa zero, sign set.
    pub open spec fn spec_is_neg_infinity(self) -> bool {
        self.bits() == 0xFFF00000000000
    }

    /// The pattern is a NaN: exponent all ones and mantissa non-zero.
    pub closed spec fn spec_is_nan(self) -> bool {
        &&& (self.b6 == 0x7F || self.b6 == 0xFF)
        &&& self.b5 / 16 == 15
        &&& (self.b5 % 16 != 0 || self.b4 != 0 || self.b3 != 0 || self.b2 != 0 || self.b1 != 0
            || self.b0 != 0)
    }

    /// The canonical quiet NaN.
    pub fn nan() -> (r: Self)
        ensures
            r.spec_is_nan(),
            !r.spec_is_pos_infinity(),
            !r.spec_is_neg_infinity(),
    {
        let r = SmallF64 { b0: 0, b1: 0, b2: 0, b3: 0, b4: 0, b5: 0xF8, b6: 0x7F };
        proof {
            assert(r.bits() != 0x7FF00000000000 && r.bits() != 0xFFF00000000000);
        }
        r
    }

    /// Positive infinity.
    pub fn pos_inf() -> (r: Self)
        ensures
            r.spec_is_pos_infinity(),
            !r.spec_is_nan(),
    {
        SmallF64 { b0: 0, b1: 0, b2: 0, b3: 0, b4: 0, b5: 0xF0, b6: 0x7F }
    }

    /// Negative infinity.
    pub fn neg_inf() -> (r: Self)
        ensures
            r.spec_is_neg_infinity(),
            !r.spec_is_nan(),
    {
        SmallF64 { b0: 0, b1: 0, b2: 0, b3: 0, b4: 0, b5: 0xF0, b6: 0xFF }
    }

    /// Positive zero.
    pub fn pos_zero() -> (r: Self)
        ensures
            r.spec_is_pos_zero(),
            !r.spec_is_neg_zero(),
            !r.spec_is_nan(),
    {
        SmallF64 { b0: 0, b1: 0, b2: 0, b3: 0, b4: 0, b5: 0, b6: 0 }
    }

    /// Negative zero.
    pub fn neg_zero() -> (r: Self)
        ensures
            r.spec_is_neg_zero(),
            !r.spec_is_pos_zero(),
            !r.spec_is_nan(),
    {
        SmallF64 { b0: 0, b1: 0, b2: 0, b3: 0, b4: 0, b5: 0, b6: 0x80 }
    }

    /// Does the pattern read `+0.0`?
    pub fn is_pos_zero(self) -> (r: bool)
        ensures
            r == self.spec_is_pos_zero(),
    {
        self.b0 == 0 && self.b1 == 0 && self.b2 == 0 && self.b3 == 0 && self.b4 == 0 && self.b5
            == 0 && self.b6 == 0
    }

    /// Does the pattern read `-0.0`?
    pub fn is_neg_zero(self) -> (r: bool)
        ensures
            r == self.spec_is_neg_zero(),
    {
        self.b0 == 0 && self.b1 == 0 && self.b2 == 0 && self.b3 == 0 && self.b4 == 0 && self.b5
            == 0 && self.b6 == 0x80
    }

    /// Does the pattern read `+Infinity`?
    pub fn is_pos_infinity(self) -> (r: bool)
        ensures
            r == self.spec_is_pos_infinity(),
    {
        self.b0 == 0 && self.b1 == 0 && self.b2 == 0 && self.b3 == 0 && self.b4 == 0 && self.b5
            == 0xF0 && self.b6 == 0x7F
    }

    /// Does the pattern read `-Infinity`?
    pub fn is_neg_infinity(self) -> (r: bool)
        ensures
            r == self.spec_is_neg_infinity(),
    {
        self.b0 == 0 && self.b1 == 0 && self.b2 == 0 && self.b3 == 0 && self.b4 == 0 && self.b5
            == 0xF0 && self.b6 == 0xFF
    }

    /// Build a pattern from its seven stored bytes, low to high: the high
    /// seven bytes of an IEEE 754 double whose dropped low byte is zero.
    pub fn from_parts(b0: u8, b1: u8, b2: u8, b3: u8, b4: u8, b5: u8, b6: u8) -> (r: Self)
        ensures
            r.bits() == le56(b0, b1, b2, b3, b4, b5, b6),
    {
        SmallF64 { b0, b1, b2, b3, b4, b5, b6 }
    }

    /// The seven stored bytes, low to high.
    pub fn to_parts(self) -> (r: (u8, u8, u8, u8, u8, u8, u8))
        ensures
            le56(r.0, r.1, r.2, r.3, r.4, r.5, r.6) == self.bits(),
    {
        (self.b0, self.b1, self.b2, self.b3, self.b4, self.b5, self.b6)
    }

    /// Is the pattern a NaN?
    pub fn is_nan(self) -> (r: bool)
        ensures
            r == self.spec_is_nan(),
    {
        (self.b6 == 0x7F || self.b6 == 0xFF) && self.b5 / 16 == 15 && (self.b5 % 16 != 0 || self.b4
            != 0 || self.b3 != 0 || self.b2 != 0 || self.b1 != 0 || self.b0 != 0)
    }
}

} // verus!
