//! Date records: a heap kind whose payload is an optional time value.
//!
//! The time representation is a parameter: the runtime instantiates the
//! record with a plain epoch-milliseconds integer, and an invalid date holds
//! no time value at all.

use vstd::prelude::*;

verus! {

use crate::indexes::BaseIndex;
use crate::object::OrdinaryObject;

/// A heap-resident date record.
#[derive(Debug, Clone, Copy)]
pub struct DateHeapData<T> {
    /// Backing ordinary object, created lazily.
    pub object_index: Option<OrdinaryObject>,
    /// The time value; `None` is the invalid date.
    pub date: Option<T>,
}

impl<T> DateHeapData<T> {
    /// A date record holding no time value.
    pub fn new_invalid() -> (r: Self)
        ensures
            r.object_index is None,
            r.date is None,
    {
        DateHeapData { object_index: None, date: None }
    }
}

/// Tag of the date heap kind.
#[derive(Debug, Clone, Copy, Hash)]
pub struct DateTag;

/// Handle into the date arena; dates store epoch milliseconds.
pub type Date = BaseIndex<DateTag>;

} // verus!
