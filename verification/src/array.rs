//! Array objects: a dense, holey element store with a sealable length.

use vstd::prelude::*;

verus! {

use crate::indexes::BaseIndex;
use crate::object::{Object, OrdinaryObject};
use crate::value::Value;

/// The element storage of one array: a capacity-sized row of optional values
/// (a `None` slot is a hole), the logical length, and whether the length may
/// still be changed.
#[derive(Debug, Clone)]
pub struct ElementsVector {
    pub values: Vec<Option<Value>>,
    pub len: u32,
    pub len_writable: bool,
}

impl ElementsVector {
    /// The logical length never exceeds the allocated capacity.
    pub open spec fn wf(self) -> bool {
        self.len <= self.values@.len()
    }

    /// A hole-filled store of the given logical length, with room for
    /// `capacity` elements.
    pub fn with_length_and_capacity(len: u32, capacity: u32) -> (r: Self)
        ensures
            r.wf(),
            r.len == len,
            r.len_writable,
            r.values@.len() == vstd::math::max(len as int, capacity as int),
            forall|i: int| 0 <= i < r.values@.len() ==> r.values@[i] is None,
    {
        let cap = if capacity > len {
            capacity
        } else {
            len
        };
        let mut values: Vec<Option<Value>> = Vec::new();
        let mut i: u32 = 0;
        while i < cap
            invariant
                0 <= i <= cap,
                values@.len() == i,
                forall|j: int| 0 <= j < i ==> values@[j] is None,
            decreases cap - i,
        {
            values.push(None);
            i += 1;
        }
        ElementsVector { values, len, len_writable: true }
    }
}

/// A heap-resident array record.
#[derive(Debug, Clone)]
pub struct ArrayHeapData {
    /// Backing ordinary object, created lazily.
    pub object_index: Option<OrdinaryObject>,
    pub elements: ElementsVector,
}

/// Tag of the array heap kind.
#[derive(Debug, Clone, Copy, Hash)]
pub struct ArrayTag;

/// Handle into the array arena.
pub type ArrayIndex = BaseIndex<ArrayTag>;

/// An array object, addressed by its arena slot.
#[derive(Debug, Clone, Copy, PartialEq, Eq)]
pub struct Array(pub ArrayIndex);

impl Array {
    /// The placeholder handle: slot zero.
    pub fn _def() -> (r: Self)
        ensures
            r.0.index() == 0,
    {
        Array(BaseIndex::from_u32_index(0))
    }

    /// The arena slot this array lives in.
    pub fn get_index(self) -> (r: usize)
        ensures
            r == self.0.index(),
    {
        self.0.into_index()
    }

    /// The value carrying this array.
    pub fn into_value(self) -> (r: Value)
        ensures
            r == Value::Array(self),
    {
        Value::Array(self)
    }

    /// The object carrying this array.
    pub fn into_object(self) -> (r: Object)
        ensures
            r == Object::Array(self),
    {
        Object::Array(self)
    }
}

} // verus!
