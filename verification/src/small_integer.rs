//! 53-bit signed integers packed into seven bytes.
//!
//! Values are stored as the low 56 bits of their two's-complement form,
//! little-endian, so that a `Value` variant carrying one stays within a
//! single machine word next to its one-byte discriminant.

use vstd::prelude::*;

verus! {

/// Two to the 53rd, minus one: the largest integer such that every integer of
/// that magnitude is exactly representable in an IEEE 754 double.
pub const MAX_SAFE_INTEGER: i64 = 9007199254740991;
/// The negation of [`MAX_SAFE_INTEGER`].
pub const MIN_SAFE_INTEGER: i64 = -9007199254740991;

/// The unsigned number the seven little-endian bytes spell out.
pub open spec fn le56(b0: u8, b1: u8, b2: u8, b3: u8, b4: u8, b5: u8, b6: u8) -> int {
    b0 + 256 * (b1 + 256 * (b2 + 256 * (b3 + 256 * (b4 + 256 * (b5 + 256 * b6)))))
}

/// The signed reading of a 56-bit two's-complement magnitude.
pub open spec fn sign56(mag: int) -> int {
    if mag < 0x80000000000000 {
        mag
    } else {
        mag - 0x100000000000000
    }
}

/// Split an unsigned 56-bit number into seven little-endian bytes.
pub(crate) fn pack56(u: u64) -> (r: (u8, u8, u8, u8, u8, u8, u8))
    requires
        u < 0x100000000000000,
    ensures
        le56(r.0, r.1, r.2, r.3, r.4, r.5, r.6) == u,
{
    let b0: u8 = (u % 256) as u8;
    let u1: u64 = u / 256;
    let b1: u8 = (u1 % 256) as u8;
    let u2: u64 = u1 / 256;
    let b2: u8 = (u2 % 256) as u8;
    let u3: u64 = u2 / 256;
    let b3: u8 = (u3 % 256) as u8;
    let u4: u64 = u3 / 256;
    let b4: u8 = (u4 % 256) as u8;
    let u5: u64 = u4 / 256;
    let b5: u8 = (u5 % 256) as u8;
    let u6: u64 = u5 / 256;
    assert(u6 < 256) by (nonlinear_arith)
        requires
            u < 0x100000000000000,
            u1 == u / 256,
            u2 == u1 / 256,
            u3 == u2 / 256,
            u4 == u3 / 256,
            u5 == u4 / 256,
            u6 == u5 / 256,
    ;
    let b6: u8 = u6 as u8;
    (b0, b1, b2, b3, b4, b5, b6)
}

/// Reassemble seven little-endian bytes into an unsigned 56-bit number.
pub(crate) fn unpack56(b0: u8, b1: u8, b2: u8, b3: u8, b4: u8, b5: u8, b6: u8) -> (r: u64)
    ensures
        r == le56(b0, b1, b2, b3, b4, b5, b6),
        r < 0x100000000000000,
{
    let m6: u64 = b6 as u64;
    let m5: u64 = m6 * 256 + b5 as u64;
    let m4: u64 = m5 * 256 + b4 as u64;
    let m3: u64 = m4 * 256 + b3 as u64;
    let m2: u64 = m3 * 256 + b2 as u64;
    let m1: u64 = m2 * 256 + b1 as u64;
    let m0: u64 = m1 * 256 + b0 as u64;
    m0
}

/// A signed integer in `MIN_SAFE_INTEGER ..= MAX_SAFE_INTEGER`, stored as the
/// low 56 bits of its two's-complement form, little-endian.
#[derive(Debug, Clone, Copy, Hash, PartialEq, Eq, Structural)]
pub struct SmallInteger {
    b0: u8,
    b1: u8,
    b2: u8,
    b3: u8,
    b4: u8,
    b5: u8,
    b6: u8,
}

impl SmallInteger {
    /// The stored bytes are a safe integer's two's-complement form.
    #[verifier::type_invariant]
    pub closed spec fn inv(self) -> bool {
        MIN_SAFE_INTEGER <= self.value() <= MAX_SAFE_INTEGER
    }

    /// The signed integer this record denotes.
    pub closed spec fn value(self) -> int {
        sign56(le56(self.b0, self.b1, self.b2, self.b3, self.b4, self.b5, self.b6))
    }

    /// The integer zero.
    pub fn zero() -> (r: Self)
        ensures
            r.value() == 0,
    {
        SmallInteger { b0: 0, b1: 0, b2: 0, b3: 0, b4: 0, b5: 0, b6: 0 }
    }

    /// Pack a safe integer.
    pub fn from_i64(value: i64) -> (r: Self)
        requires
            MIN_SAFE_INTEGER <= value <= MAX_SAFE_INTEGER,
        ensures
            r.value() == value,
    {
        let u: u64 = if value >= 0 {
            value as u64
        } else {
            (value + 0x100000000000000) as u64
        };
        let (b0, b1, b2, b3, b4, b5, b6) = pack56(u);
        SmallInteger { b0, b1, b2, b3, b4, b5, b6 }
    }

    /// Unpack back to a native integer.
    pub fn into_i64(self) -> (r: i64)
        ensures
            r == self.value(),
            MIN_SAFE_INTEGER <= r <= MAX_SAFE_INTEGER,
    {
        proof {
            use_type_invariant(self);
        }
        let m = unpack56(self.b0, self.b1, self.b2, self.b3, self.b4, self.b5, self.b6);
        if m >= 0x80000000000000 {
            (m as i64) - 0x100000000000000
        } else {
            m as i64
        }
    }
}

} // verus!
