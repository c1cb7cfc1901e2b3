//! Runtime numbers: heap number records and the number sum type.
//!
//! A number is inline when it is a safe integer (a [`SmallInteger`]) or a
//! double whose low byte of bits is zero (a [`SmallF64`]); any other double
//! owns a heap record holding its raw IEEE 754 bit pattern. This module
//! stores and classifies bit patterns only; it performs no floating-point
//! arithmetic.

use vstd::prelude::*;

verus! {

use crate::indexes::BaseIndex;
use crate::small_f64::SmallF64;
use crate::small_integer::SmallInteger;

/// Bit pattern of `+Infinity`.
pub const F64_POS_INFINITY_BITS: u64 = 0x7FF0000000000000;
/// Bit pattern of `-Infinity`.
pub const F64_NEG_INFINITY_BITS: u64 = 0xFFF0000000000000;
/// Bit pattern of `-0.0`.
pub const F64_NEG_ZERO_BITS: u64 = 0x8000000000000000;

/// Does a 64-bit pattern read as a NaN: exponent all ones, mantissa non-zero?
pub open spec fn spec_f64_bits_nan(bits: u64) -> bool {
    &&& (bits / 0x10000000000000) % 0x800 == 0x7FF
    &&& bits % 0x10000000000000 != 0
}

/// A heap-resident number record: the raw bit pattern of an IEEE 754 double.
#[derive(Debug, Clone, Copy, PartialEq, Eq, Structural)]
pub struct NumberHeapData {
    pub bits: u64,
}

/// Tag of the number heap kind.
#[derive(Debug, Clone, Copy, Hash)]
pub struct NumberTag;

/// Handle into the number arena.
pub type HeapNumber = BaseIndex<NumberTag>;

/// A runtime number: a heap double, an inline safe integer, or an inline
/// seven-byte double.
#[derive(Debug, Clone, Copy, PartialEq, Eq)]
pub enum Number {
    Number(HeapNumber),
    Integer(SmallInteger),
    SmallF64(SmallF64),
}

} // verus!
