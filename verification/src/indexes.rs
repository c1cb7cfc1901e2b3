//! Typed, word-sized, 1-based handles into per-kind heap arenas.
//!
//! A `BaseIndex<T>` stores a non-zero `u32`; the slot it denotes in the arena
//! of `T` records is the stored value minus one, so that zero stays free to
//! mean "no handle" in niche-packed layouts.

use vstd::prelude::*;

verus! {

use core::marker::PhantomData;

/// A non-zero index into an arena of `T` records, stored with an implicit +1
/// offset so the all-zeroes bit pattern is never a valid handle.
#[derive(Debug, Hash)]
#[verifier::reject_recursive_types(T)]
pub struct BaseIndex<T> {
    raw: u32,
    marker: PhantomData<T>,
}

impl<T> Clone for BaseIndex<T> {
    fn clone(&self) -> (r: Self)
        ensures
            r == *self,
    {
        *self
    }
}

impl<T> Copy for BaseIndex<T> {}

impl<T> BaseIndex<T> {
    /// The stored raw value; always at least one.
    #[verifier::type_invariant]
    pub closed spec fn inv(self) -> bool {
        self.raw >= 1
    }

    /// The arena slot this handle denotes (0-based).
    pub closed spec fn index(self) -> nat {
        (self.raw - 1) as nat
    }

    /// The 0-based slot as a `usize`.
    pub fn into_index(self) -> (r: usize)
        ensures
            r == self.index(),
    {
        proof {
            use_type_invariant(self);
        }
        self.raw as usize - 1
    }

    /// The 0-based slot as a `u32`.
    pub fn into_u32_index(self) -> (r: u32)
        ensures
            r == self.index(),
    {
        proof {
            use_type_invariant(self);
        }
        self.raw - 1
    }

    /// The raw 1-based value as a `usize`.
    pub fn into_usize(self) -> (r: usize)
        ensures
            r == self.index() + 1,
    {
        proof {
            use_type_invariant(self);
        }
        self.raw as usize
    }

    /// The raw 1-based value.
    pub fn into_u32(self) -> (r: u32)
        ensures
            r == self.index() + 1,
    {
        proof {
            use_type_invariant(self);
        }
        self.raw
    }

    /// Handle denoting 0-based slot `value`.
    pub fn from_index(value: usize) -> (r: Self)
        requires
            value < u32::MAX,
        ensures
            r.index() == value,
    {
        Self { raw: value as u32 + 1, marker: PhantomData }
    }

    /// Handle denoting 0-based slot `value`.
    pub fn from_u32_index(value: u32) -> (r: Self)
        requires
            value < u32::MAX,
        ensures
            r.index() == value,
    {
        Self { raw: value + 1, marker: PhantomData }
    }

    /// Handle with raw 1-based value `value`.
    pub fn from_usize(value: usize) -> (r: Self)
        requires
            1 <= value <= u32::MAX,
        ensures
            r.index() + 1 == value,
    {
        Self { raw: value as u32, marker: PhantomData }
    }

    /// Handle with raw 1-based value `value`.
    pub fn from_u32(value: u32) -> (r: Self)
        requires
            value >= 1,
        ensures
            r.index() + 1 == value,
    {
        Self { raw: value, marker: PhantomData }
    }

    /// Handle to the most recently pushed slot of an arena.
    pub fn last<U>(vec: &Vec<Option<U>>) -> (r: Self)
        requires
            1 <= vec@.len() <= u32::MAX,
        ensures
            r.index() + 1 == vec@.len(),
    {
        Self::from_usize(vec.len())
    }
}

impl<T> PartialEq for BaseIndex<T> {
    fn eq(&self, other: &Self) -> (r: bool)
        ensures
            r == (self.index() == other.index()),
    {
        proof {
            use_type_invariant(*self);
            use_type_invariant(*other);
        }
        self.raw == other.raw
    }
}

impl<T> Eq for BaseIndex<T> {}

impl<T> vstd::std_specs::cmp::PartialEqSpecImpl for BaseIndex<T> {
    open spec fn obeys_eq_spec() -> bool {
        true
    }

    open spec fn eq_spec(&self, other: &Self) -> bool {
        self.index() == other.index()
    }
}

impl<T> PartialOrd for BaseIndex<T> {
    fn partial_cmp(&self, other: &Self) -> (r: Option<core::cmp::Ordering>) {
        proof {
            use_type_invariant(*self);
            use_type_invariant(*other);
        }
        if self.raw < other.raw {
            Some(core::cmp::Ordering::Less)
        } else if self.raw == other.raw {
            Some(core::cmp::Ordering::Equal)
        } else {
            Some(core::cmp::Ordering::Greater)
        }
    }
}

impl<T> vstd::std_specs::cmp::PartialOrdSpecImpl for BaseIndex<T> {
    open spec fn obeys_partial_cmp_spec() -> bool {
        true
    }

    open spec fn partial_cmp_spec(&self, other: &Self) -> Option<core::cmp::Ordering> {
        if self.index() < other.index() {
            Some(core::cmp::Ordering::Less)
        } else if self.index() == other.index() {
            Some(core::cmp::Ordering::Equal)
        } else {
            Some(core::cmp::Ordering::Greater)
        }
    }
}

} // verus!
