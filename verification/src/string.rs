//! Runtime strings: heap string records and the string sum type.
//!
//! String content is kept as UTF-8 bytes. Short strings live inline in a
//! [`SmallString`]; longer ones own a byte vector in the string arena and are
//! addressed through a [`HeapString`] handle.

use vstd::prelude::*;

verus! {

use crate::indexes::BaseIndex;
use crate::small_string::SmallString;

/// A heap-resident string record: the sole owner of its UTF-8 content bytes.
#[derive(Debug, Clone, PartialEq, Eq)]
pub struct StringHeapData {
    pub bytes: Vec<u8>,
}

impl StringHeapData {
    /// The content bytes.
    pub open spec fn view(self) -> Seq<u8> {
        self.bytes@
    }

    /// Take ownership of already-encoded content bytes.
    pub fn from_vec(bytes: Vec<u8>) -> (r: Self)
        ensures
            r@ == bytes@,
    {
        StringHeapData { bytes }
    }
}

/// Tag of the string heap kind.
#[derive(Debug, Clone, Copy, Hash)]
pub struct StringTag;

/// Handle into the string arena.
pub type HeapString = BaseIndex<StringTag>;

/// A runtime string: either seven-or-fewer bytes held inline, or a handle to
/// a heap string record.
#[derive(Debug, Clone, Copy, PartialEq, Eq)]
pub enum JsString {
    Small(SmallString),
    Heap(HeapString),
}

impl JsString {
    /// Does this string carry its content inline?
    pub open spec fn spec_is_small(self) -> bool {
        self matches JsString::Small(_)
    }

    /// Does this string carry its content inline?
    pub fn is_small(self) -> (r: bool)
        ensures
            r == self.spec_is_small(),
    {
        match self {
            JsString::Small(_) => true,
            JsString::Heap(_) => false,
        }
    }
}

} // verus!
