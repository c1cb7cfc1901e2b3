//! Runtime big-integers: heap records and the big-integer sum type.
//!
//! A big-integer whose two's-complement form fits 56 bits is inline (a
//! [`SmallBigInt`]); anything wider owns a heap record. The heap record keeps
//! the value as a native 128-bit integer; how big-integer data is encoded is
//! a storage choice of this core, not part of its interface.

use vstd::prelude::*;

verus! {

use crate::indexes::BaseIndex;
use crate::small_bigint::{SMALL_BIGINT_MAX, SMALL_BIGINT_MIN, SmallBigInt};

/// A heap-resident big-integer record: a value too wide to store inline.
#[derive(Debug, Clone, Copy, PartialEq, Eq, Structural)]
pub struct BigIntHeapData {
    pub data: i128,
}

impl BigIntHeapData {
    /// Heap records hold exactly the values the inline form cannot.
    pub open spec fn wf(self) -> bool {
        self.data < SMALL_BIGINT_MIN || self.data > SMALL_BIGINT_MAX
    }
}

/// Tag of the big-integer heap kind.
#[derive(Debug, Clone, Copy, Hash)]
pub struct BigIntTag;

/// Handle into the big-integer arena.
pub type HeapBigInt = BaseIndex<BigIntTag>;

/// A runtime big-integer: inline when narrow, heap-resident when wide.
#[derive(Debug, Clone, Copy, PartialEq, Eq)]
pub enum BigInt {
    BigInt(HeapBigInt),
    SmallBigInt(SmallBigInt),
}

} // verus!
