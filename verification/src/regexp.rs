//! Regular-expression records: the runtime stores the original source and
//! flags; matching itself is a collaborator's concern.

use vstd::prelude::*;

verus! {

use crate::indexes::BaseIndex;
use crate::object::OrdinaryObject;
use crate::small_string::SmallString;
use crate::string::JsString;

/// The set of regular-expression flags, one bit per flag letter.
#[derive(Debug, Clone, Copy, PartialEq, Eq, Structural)]
pub struct RegExpFlags {
    bits: u8,
}

impl RegExpFlags {
    /// The raw bit set.
    pub closed spec fn spec_bits(self) -> u8 {
        self.bits
    }

    /// No flag set.
    pub fn empty() -> (r: Self)
        ensures
            r.spec_bits() == 0,
    {
        RegExpFlags { bits: 0 }
    }

    /// A flag set from its raw bits; only the low seven bits are meaningful
    /// (`d g i m s u y`).
    pub fn from_bits(bits: u8) -> (r: Self)
        ensures
            r.spec_bits() == bits,
    {
        RegExpFlags { bits }
    }
}

/// A heap-resident regular-expression record.
#[derive(Debug, Clone, Copy)]
pub struct RegExpHeapData {
    /// Backing ordinary object, created lazily.
    pub object_index: Option<OrdinaryObject>,
    /// The pattern text the expression was made from.
    pub original_source: JsString,
    /// The flag letters the expression was made with.
    pub original_flags: RegExpFlags,
}

impl Default for RegExpHeapData {
    /// An empty pattern with no flags and no backing object.
    fn default() -> (r: Self)
        ensures
            r.object_index is None,
            r.original_flags.spec_bits() == 0,
            r.original_source matches JsString::Small(s) && s@ == Seq::<u8>::empty(),
    {
        RegExpHeapData {
            object_index: None,
            original_source: JsString::Small(SmallString::empty()),
            original_flags: RegExpFlags::empty(),
        }
    }
}

/// Tag of the regular-expression heap kind.
#[derive(Debug, Clone, Copy, Hash)]
pub struct RegExpTag;

/// Handle into the regular-expression arena.
pub type RegExp = BaseIndex<RegExpTag>;

} // verus!
