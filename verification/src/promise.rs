//! Promise records and promise capabilities.
//!
//! The full reaction scheduler is a collaborator: this core creates promise
//! records, settles them through capabilities, and is called back with the
//! settlement outcome (`PromiseReactionType`) when an awaited promise
//! resolves elsewhere.

use vstd::prelude::*;

verus! {

use crate::agent::Agent;
use crate::heap::Heap;
use crate::indexes::BaseIndex;
use crate::object::OrdinaryObject;
use crate::value::Value;

/// Where a promise stands.
#[derive(Debug, Clone, Copy)]
pub enum PromiseState {
    Pending,
    Fulfilled(Value),
    Rejected(Value),
}

/// A heap-resident promise record.
#[derive(Debug, Clone, Copy)]
pub struct PromiseHeapData {
    /// Backing ordinary object, created lazily.
    pub object_index: Option<OrdinaryObject>,
    pub promise_state: PromiseState,
}

impl PromiseHeapData {
    /// A fresh, pending promise record.
    pub fn new() -> (r: Self)
        ensures
            r.object_index is None,
            r.promise_state is Pending,
    {
        PromiseHeapData { object_index: None, promise_state: PromiseState::Pending }
    }
}

/// Tag of the promise heap kind.
#[derive(Debug, Clone, Copy, Hash)]
pub struct PromiseTag;

/// Handle into the promise arena.
pub type Promise = BaseIndex<PromiseTag>;

/// A resolve/reject pair bound to one promise instance.
#[derive(Debug, Clone, Copy)]
pub struct PromiseCapability {
    pub promise: Promise,
    /// When set, settling an already-settled promise is an invariant
    /// violation; the capability's operations demand an unsettled promise.
    pub must_be_unresolved: bool,
}

impl PromiseCapability {
    /// Rebuild the capability of an existing promise.
    pub fn from_promise(promise: Promise, must_be_unresolved: bool) -> (r: Self)
        ensures
            r.promise == promise,
            r.must_be_unresolved == must_be_unresolved,
    {
        PromiseCapability { promise, must_be_unresolved }
    }
}

/// Which way a promise settled, as delivered by the reaction scheduler.
#[derive(Debug, Clone, Copy, PartialEq, Eq, Structural)]
pub enum PromiseReactionType {
    Fulfill,
    Reject,
}

impl PromiseCapability {
    /// Create a fresh pending promise and the capability to settle it.
    pub fn new(agent: &mut Agent) -> (r: PromiseCapability)
        requires
            old(agent).heap.promises@.len() < u32::MAX,
        ensures
            final(agent).heap.promises@ == old(agent).heap.promises@.push(
                Some(PromiseHeapData { object_index: None, promise_state: PromiseState::Pending }),
            ),
            r.promise.index() == old(agent).heap.promises@.len(),
            r.must_be_unresolved,
            final(agent).heap == (Heap {
                promises: final(agent).heap.promises,
                ..old(agent).heap
            }),
            final(agent).execution_context_stack == old(agent).execution_context_stack,
            final(agent).globals == old(agent).globals,
            final(agent).weak_refs == old(agent).weak_refs,
            final(agent).realm == old(agent).realm,
    {
        let promise = agent.heap.promises.create(PromiseHeapData::new());
        PromiseCapability { promise, must_be_unresolved: true }
    }

    /// Settle the promise as fulfilled with `value`.
    ///
    /// Settling an already-settled promise through a capability that demands
    /// an unsettled one is an invariant violation, excluded here.
    pub fn resolve(&self, agent: &mut Agent, value: Value)
        requires
            old(agent).heap.promises.valid(self.promise),
            self.must_be_unresolved ==> (old(agent).heap.promises.spec_get(
                self.promise,
            ).promise_state is Pending),
        ensures
            final(agent).heap.promises@ == old(agent).heap.promises@.update(
                self.promise.index() as int,
                Some(
                    PromiseHeapData {
                        object_index: old(agent).heap.promises.spec_get(self.promise).object_index,
                        promise_state: PromiseState::Fulfilled(value),
                    },
                ),
            ),
            final(agent).heap == (Heap {
                promises: final(agent).heap.promises,
                ..old(agent).heap
            }),
            final(agent).execution_context_stack == old(agent).execution_context_stack,
            final(agent).globals == old(agent).globals,
            final(agent).weak_refs == old(agent).weak_refs,
            final(agent).realm == old(agent).realm,
    {
        let record = agent.heap.promises.get_mut(self.promise);
        record.promise_state = PromiseState::Fulfilled(value);
    }

    /// Settle the promise as rejected with `value`.
    pub fn reject(&self, agent: &mut Agent, value: Value)
        requires
            old(agent).heap.promises.valid(self.promise),
            self.must_be_unresolved ==> (old(agent).heap.promises.spec_get(
                self.promise,
            ).promise_state is Pending),
        ensures
            final(agent).heap.promises@ == old(agent).heap.promises@.update(
                self.promise.index() as int,
                Some(
                    PromiseHeapData {
                        object_index: old(agent).heap.promises.spec_get(self.promise).object_index,
                        promise_state: PromiseState::Rejected(value),
                    },
                ),
            ),
            final(agent).heap == (Heap {
                promises: final(agent).heap.promises,
                ..old(agent).heap
            }),
            final(agent).execution_context_stack == old(agent).execution_context_stack,
            final(agent).globals == old(agent).globals,
            final(agent).weak_refs == old(agent).weak_refs,
            final(agent).realm == old(agent).realm,
    {
        let record = agent.heap.promises.get_mut(self.promise);
        record.promise_state = PromiseState::Rejected(value);
    }
}

} // verus!
