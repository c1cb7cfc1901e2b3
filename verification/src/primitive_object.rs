//! Primitive wrapper objects: Boolean, Number, String, Symbol and BigInt
//! values promoted to object form.

use vstd::prelude::*;

verus! {

use crate::bigint::HeapBigInt;
use crate::indexes::BaseIndex;
use crate::number::HeapNumber;
use crate::object::OrdinaryObject;
use crate::small_bigint::SmallBigInt;
use crate::small_f64::SmallF64;
use crate::small_integer::SmallInteger;
use crate::small_string::SmallString;
use crate::string::HeapString;
use crate::symbol::Symbol;

/// The wrapped primitive a primitive object carries.
#[derive(Debug, Clone, Copy)]
pub enum PrimitiveObjectData {
    Boolean(bool),
    String(HeapString),
    SmallString(SmallString),
    Symbol(Symbol),
    Number(HeapNumber),
    Integer(SmallInteger),
    SmallF64(SmallF64),
    BigInt(HeapBigInt),
    SmallBigInt(SmallBigInt),
}

/// A heap-resident primitive wrapper record.
#[derive(Debug, Clone, Copy)]
pub struct PrimitiveObjectHeapData {
    /// Backing ordinary object, created lazily.
    pub object_index: Option<OrdinaryObject>,
    pub data: PrimitiveObjectData,
}

impl PrimitiveObjectHeapData {
    /// Does this wrapper hold a symbol?
    pub open spec fn spec_is_symbol_object(self) -> bool {
        self.data matches PrimitiveObjectData::Symbol(_)
    }

    /// Does this wrapper hold a symbol?
    pub fn is_symbol_object(&self) -> (r: bool)
        ensures
            r == self.spec_is_symbol_object(),
    {
        matches!(self.data, PrimitiveObjectData::Symbol(_))
    }
}

/// Tag of the primitive-object heap kind.
#[derive(Debug, Clone, Copy, Hash)]
pub struct PrimitiveObjectTag;

/// Handle into the primitive-object arena.
pub type PrimitiveObject = BaseIndex<PrimitiveObjectTag>;

} // verus!
