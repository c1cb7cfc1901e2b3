//! The arena: a growable, append-only store of optional records of one kind.
//!
//! An arena is the sole owner of its records. Creation appends and returns
//! the handle of the new slot; a `None` slot is a record that was collected
//! but not yet compacted away. Indexing through a handle whose slot is absent
//! is a programming-error-class failure, excluded here by precondition.

use vstd::prelude::*;

verus! {

use crate::indexes::BaseIndex;

/// An append-only store of `Option<T>` records, addressed by `BaseIndex<K>`,
/// where `K` is the tag naming this record kind.
#[derive(Debug)]
#[verifier::reject_recursive_types(K)]
pub struct Arena<K, T> {
    slots: Vec<Option<T>>,
    marker: core::marker::PhantomData<K>,
}

impl<K, T> Arena<K, T> {
    /// The stored slots.
    pub closed spec fn view(self) -> Seq<Option<T>> {
        self.slots@
    }

    /// Does `h` denote a live (present and occupied) slot?
    pub open spec fn valid(self, h: BaseIndex<K>) -> bool {
        h.index() < self@.len() && self@[h.index() as int] is Some
    }

    /// The record a live handle denotes.
    pub open spec fn spec_get(self, h: BaseIndex<K>) -> T
        recommends
            self.valid(h),
    {
        self@[h.index() as int]->Some_0
    }

    /// A fresh, empty arena.
    pub fn new() -> (r: Self)
        ensures
            r@ == Seq::<Option<T>>::empty(),
    {
        Arena { slots: Vec::new(), marker: core::marker::PhantomData }
    }

    /// How many slots the arena holds, collected ones included.
    pub fn len(&self) -> (r: usize)
        ensures
            r == self@.len(),
    {
        self.slots.len()
    }

    /// Append a record and hand back its handle.
    pub fn create(&mut self, data: T) -> (r: BaseIndex<K>)
        requires
            old(self)@.len() < u32::MAX,
        ensures
            final(self)@ == old(self)@.push(Some(data)),
            r.index() == old(self)@.len(),
            final(self).valid(r),
            final(self).spec_get(r) == data,
    {
        self.slots.push(Some(data));
        BaseIndex::last(&self.slots)
    }

    /// Does `h` denote a live slot?
    pub fn has(&self, h: BaseIndex<K>) -> (r: bool)
        ensures
            r == self.valid(h),
    {
        let i = h.into_index();
        i < self.slots.len() && self.slots[i].is_some()
    }

    /// Read the record a live handle denotes.
    pub fn get(&self, h: BaseIndex<K>) -> (r: &T)
        requires
            self.valid(h),
        ensures
            *r == self.spec_get(h),
    {
        let i = h.into_index();
        match &self.slots[i] {
            Some(data) => data,
            None => {
                proof {
                    assert(false);
                }
                vstd::pervasive::unreached()
            },
        }
    }

    /// Borrow the record a live handle denotes, for in-place update.
    pub fn get_mut(&mut self, h: BaseIndex<K>) -> (r: &mut T)
        requires
            old(self).valid(h),
        ensures
            *r == old(self).spec_get(h),
            final(self)@ == old(self)@.update(h.index() as int, Some(*final(r))),
    {
        let i = h.into_index();
        match &mut self.slots[i] {
            Some(data) => data,
            None => {
                proof {
                    assert(false);
                }
                vstd::pervasive::unreached()
            },
        }
    }

    /// Replace the record a live handle denotes.
    pub fn set(&mut self, h: BaseIndex<K>, data: T)
        requires
            old(self).valid(h),
        ensures
            final(self)@ == old(self)@.update(h.index() as int, Some(data)),
            final(self).valid(h),
            final(self).spec_get(h) == data,
    {
        let i = h.into_index();
        self.slots[i] = Some(data);
    }

    /// Handle of the most recently created slot.
    pub fn last_handle(&self) -> (r: BaseIndex<K>)
        requires
            1 <= self@.len() <= u32::MAX,
        ensures
            r.index() + 1 == self@.len(),
    {
        BaseIndex::last(&self.slots)
    }

    /// Creation round-trip: for every heap kind, reading the handle that an
    /// allocation just returned yields exactly the record that was inserted.
    pub proof fn lemma_create_get_round_trip(pre: Self, post: Self, h: BaseIndex<K>, data: T)
        requires
            post@ == pre@.push(Some(data)),
            h.index() == pre@.len(),
        ensures
            post.valid(h),
            post.spec_get(h) == data,
    {
    }

    /// Replace the whole slot store; the compaction pass rebuilds arenas.
    pub fn replace_slots(&mut self, slots: Vec<Option<T>>)
        ensures
            final(self)@ == slots@,
    {
        self.slots = slots;
    }

    /// Copy of the slot store, for the compaction pass to walk.
    pub fn take_slots(&mut self) -> (r: Vec<Option<T>>)
        ensures
            r@ == old(self)@,
            final(self)@ == Seq::<Option<T>>::empty(),
    {
        let mut slots: Vec<Option<T>> = Vec::new();
        core::mem::swap(&mut slots, &mut self.slots);
        slots
    }
}

} // verus!
