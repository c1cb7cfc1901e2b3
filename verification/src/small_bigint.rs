//! 56-bit signed big-integers packed into seven bytes.
//!
//! Big-integer values whose two's-complement form fits in 56 bits are kept
//! inline in a `Value`; anything larger lives in the big-integer heap arena.

use vstd::prelude::*;

verus! {

use crate::small_integer::{le56, pack56, sign56, unpack56};

/// The largest inline big-integer: two to the 55th, minus one.
pub const SMALL_BIGINT_MAX: i64 = 36028797018963967;
/// The smallest inline big-integer: minus two to the 55th.
pub const SMALL_BIGINT_MIN: i64 = -36028797018963968;

/// A signed integer in `SMALL_BIGINT_MIN ..= SMALL_BIGINT_MAX`, stored as the
/// low 56 bits of its two's-complement form, little-endian.
#[derive(Debug, Clone, Copy, Hash, PartialEq, Eq, Structural)]
pub struct SmallBigInt {
    b0: u8,
    b1: u8,
    b2: u8,
    b3: u8,
    b4: u8,
    b5: u8,
    b6: u8,
}

impl SmallBigInt {
    /// The signed integer this record denotes.
    pub closed spec fn value(self) -> int {
        sign56(le56(self.b0, self.b1, self.b2, self.b3, self.b4, self.b5, self.b6))
    }

    /// The big-integer zero.
    pub fn zero() -> (r: Self)
        ensures
            r.value() == 0,
    {
        SmallBigInt { b0: 0, b1: 0, b2: 0, b3: 0, b4: 0, b5: 0, b6: 0 }
    }

    /// Pack an integer whose two's-complement form fits in 56 bits.
    pub fn from_i64(value: i64) -> (r: Self)
        requires
            SMALL_BIGINT_MIN <= value <= SMALL_BIGINT_MAX,
        ensures
            r.value() == value,
    {
        let u: u64 = if value >= 0 {
            value as u64
        } else {
            (value + 0x100000000000000) as u64
        };
        let (b0, b1, b2, b3, b4, b5, b6) = pack56(u);
        SmallBigInt { b0, b1, b2, b3, b4, b5, b6 }
    }

    /// Unpack back to a native integer.
    pub fn into_i64(self) -> (r: i64)
        ensures
            r == self.value(),
            SMALL_BIGINT_MIN <= r <= SMALL_BIGINT_MAX,
    {
        let m = unpack56(self.b0, self.b1, self.b2, self.b3, self.b4, self.b5, self.b6);
        if m >= 0x80000000000000 {
            (m as i64) - 0x100000000000000
        } else {
            m as i64
        }
    }
}

} // verus!
