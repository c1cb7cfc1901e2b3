//! Symbol records: unique tokens with an optional descriptive string.

use vstd::prelude::*;

verus! {

use crate::indexes::BaseIndex;
use crate::string::JsString;

/// A heap-resident symbol record.
#[derive(Debug, Clone, Copy, PartialEq, Eq)]
pub struct SymbolHeapData {
    /// The descriptive string given when the symbol was made, if any.
    pub descriptor: Option<JsString>,
}

/// Tag of the symbol heap kind.
#[derive(Debug, Clone, Copy, Hash)]
pub struct SymbolTag;

/// Handle into the symbol arena.
pub type Symbol = BaseIndex<SymbolTag>;

} // verus!
