//! Set objects: a specialized heap kind holding a list of element values.

use vstd::prelude::*;

verus! {

use crate::agent::Agent;
use crate::indexes::BaseIndex;
use crate::object::{ObjectEntry, ObjectHeapData};
use crate::object::{Object, OrdinaryObject};
use crate::value::Value;

/// A heap-resident set record.
#[derive(Debug, Clone)]
pub struct SetHeapData {
    /// Backing ordinary object, created lazily.
    pub object_index: Option<OrdinaryObject>,
    /// The element values, in insertion order.
    pub elements: Vec<Value>,
}

impl SetHeapData {
    /// A fresh, empty set record.
    pub fn new() -> (r: Self)
        ensures
            r.object_index is None,
            r.elements@.len() == 0,
    {
        SetHeapData { object_index: None, elements: Vec::new() }
    }
}

/// Tag of the set heap kind.
#[derive(Debug, Clone, Copy, Hash)]
pub struct SetTag;

/// Handle into the set arena.
pub type SetIndex = BaseIndex<SetTag>;

/// A set object, addressed by its arena slot.
#[derive(Debug, Clone, Copy, PartialEq, Eq)]
pub struct SetObject(pub SetIndex);

impl SetObject {
    /// The placeholder handle: slot zero.
    pub fn _def() -> (r: Self)
        ensures
            r.0.index() == 0,
    {
        SetObject(BaseIndex::from_u32_index(0))
    }

    /// The arena slot this set lives in.
    pub fn get_index(self) -> (r: usize)
        ensures
            r == self.0.index(),
    {
        self.0.into_index()
    }

    /// Wrap a raw arena handle.
    pub fn from_index(value: SetIndex) -> (r: Self)
        ensures
            r.0 == value,
    {
        SetObject(value)
    }

    /// The value carrying this set.
    pub fn into_value(self) -> (r: Value)
        ensures
            r == Value::SetObject(self),
    {
        Value::SetObject(self)
    }

    /// The object carrying this set.
    pub fn into_object(self) -> (r: Object)
        ensures
            r == Object::SetObject(self),
    {
        Object::SetObject(self)
    }

    /// The set a value carries, if it carries one.
    pub fn try_from_value(value: Value) -> (r: Option<SetObject>)
        ensures
            match value {
                Value::SetObject(s) => r == Some(s),
                _ => r is None,
            },
    {
        if let Value::SetObject(set) = value {
            Some(set)
        } else {
            None
        }
    }

    /// The set an object carries, if it carries one.
    pub fn try_from_object(value: Object) -> (r: Option<SetObject>)
        ensures
            match value {
                Object::SetObject(s) => r == Some(s),
                _ => r is None,
            },
    {
        if let Object::SetObject(set) = value {
            Some(set)
        } else {
            None
        }
    }
}

/// Create the backing ordinary object of a set, seeded with the given
/// properties and the realm's set prototype.
pub fn create_set_base_object(agent: &mut Agent, set: SetObject, entries: Vec<ObjectEntry>) -> (r:
    OrdinaryObject)
    requires
        old(agent).heap.sets.valid(set.0),
        old(agent).heap.objects@.len() < u32::MAX,
        (forall|i: int, j: int|
            0 <= i < j < entries@.len() ==> entries@[i].key.id() != entries@[j].key.id()),
    ensures
        final(agent).heap.objects.valid(r),
        r.index() == old(agent).heap.objects@.len(),
        final(agent).heap.objects.spec_get(r).prototype == Some(
            Object::Object(old(agent).realm.intrinsics.set_prototype),
        ),
        final(agent).heap.objects.spec_get(r).entries@ == entries@,
        final(agent).heap.sets.valid(set.0),
        final(agent).heap.sets.spec_get(set.0).object_index == Some(r),
        final(agent).heap.sets.spec_get(set.0).elements == old(agent).heap.sets.spec_get(
            set.0,
        ).elements,
{
    let prototype = agent.realm.intrinsics.set_prototype;
    let mut data = ObjectHeapData::new_with_prototype(Some(Object::Object(prototype)));
    data.entries = entries;
    let object_index = agent.heap.objects.create(data);
    let record = agent.heap.sets.get_mut(set.0);
    record.object_index = Some(object_index);
    object_index
}

impl SetObject {
    /// The backing ordinary object, when one was created.
    pub fn get_backing_object(self, agent: &Agent) -> (r: Option<OrdinaryObject>)
        requires
            agent.heap.sets.valid(self.0),
        ensures
            r == agent.heap.sets.spec_get(self.0).object_index,
    {
        agent.heap.sets.get(self.0).object_index
    }

    /// Create the backing ordinary object lazily, with the realm's set
    /// prototype and no properties. The set must not have one yet: creating
    /// it twice is a programming-error-class failure.
    pub fn create_backing_object(self, agent: &mut Agent) -> (r: OrdinaryObject)
        requires
            old(agent).heap.sets.valid(self.0),
            old(agent).heap.sets.spec_get(self.0).object_index is None,
            old(agent).heap.objects@.len() < u32::MAX,
        ensures
            final(agent).heap.objects.valid(r),
            final(agent).heap.objects.spec_get(r).prototype == Some(
                Object::Object(old(agent).realm.intrinsics.set_prototype),
            ),
            final(agent).heap.objects.spec_get(r).entries@.len() == 0,
            final(agent).heap.sets.valid(self.0),
            final(agent).heap.sets.spec_get(self.0).object_index == Some(r),
    {
        let prototype = agent.realm.intrinsics.set_prototype;
        let backing_object = agent.heap.objects.create(
            ObjectHeapData::new_with_prototype(Some(Object::Object(prototype))),
        );
        let record = agent.heap.sets.get_mut(self.0);
        record.object_index = Some(backing_object);
        backing_object
    }

    /// Add a value at the end of the set's insertion order.
    pub fn add(self, agent: &mut Agent, value: Value)
        requires
            old(agent).heap.sets.valid(self.0),
        ensures
            final(agent).heap.sets.valid(self.0),
            final(agent).heap.sets.spec_get(self.0).elements@ == old(agent).heap.sets.spec_get(
                self.0,
            ).elements@.push(value),
            final(agent).heap.sets.spec_get(self.0).object_index == old(
                agent,
            ).heap.sets.spec_get(self.0).object_index,
    {
        let record = agent.heap.sets.get_mut(self.0);
        record.elements.push(value);
    }
}

} // verus!
