//! Ordinary objects: property keys, property storage, and the closed sum of
//! all object kinds.
//!
//! Every specialized heap kind (arrays, errors, sets, …) may lazily acquire a
//! "backing" ordinary object, which owns the properties user code adds on top
//! of the specialized payload.

use vstd::prelude::*;

verus! {

use crate::array::Array;
use crate::async_generator::AsyncGenerator;
use crate::date::Date;
use crate::error::Error;
use crate::function::{BoundFunction, BuiltinFunction, ECMAScriptFunction};
use crate::generator::Generator;
use crate::indexes::BaseIndex;
use crate::promise::Promise;
use crate::regexp::RegExp;
use crate::set_object::SetObject;
use crate::small_integer::SmallInteger;
use crate::small_string::SmallString;
use crate::string::{HeapString, JsString};
use crate::symbol::Symbol;
use crate::value::Value;

/// The mathematical identity of a property key.
///
/// Heap strings and symbols are identified by their arena slot: the runtime
/// compares keys by handle, not by fetching content.
pub enum PropertyKeyId {
    Integer(int),
    SmallStr(Seq<u8>),
    HeapStr(nat),
    Symbol(nat),
}

/// A key under which a property is stored.
#[derive(Debug, Clone, Copy)]
pub enum PropertyKey {
    Integer(SmallInteger),
    SmallString(SmallString),
    String(HeapString),
    Symbol(Symbol),
}

impl PropertyKey {
    /// The key's identity.
    pub open spec fn id(self) -> PropertyKeyId {
        match self {
            PropertyKey::Integer(i) => PropertyKeyId::Integer(i.value()),
            PropertyKey::SmallString(s) => PropertyKeyId::SmallStr(s@),
            PropertyKey::String(h) => PropertyKeyId::HeapStr(h.index()),
            PropertyKey::Symbol(s) => PropertyKeyId::Symbol(s.index()),
        }
    }

    /// Build a key from a runtime string.
    pub fn from_js_string(s: JsString) -> (r: Self)
        ensures
            r.id() == match s {
                JsString::Small(small) => PropertyKeyId::SmallStr(small@),
                JsString::Heap(h) => PropertyKeyId::HeapStr(h.index()),
            },
    {
        match s {
            JsString::Small(small) => PropertyKey::SmallString(small),
            JsString::Heap(h) => PropertyKey::String(h),
        }
    }

    /// Do two keys denote the same property?
    pub fn same(self, other: Self) -> (r: bool)
        ensures
            r == (self.id() == other.id()),
    {
        match (self, other) {
            (PropertyKey::Integer(a), PropertyKey::Integer(b)) => {
                let r = a.into_i64() == b.into_i64();
                proof {
                    if self.id() == other.id() {
                        assert(a.value() == b.value());
                    }
                }
                r
            },
            (PropertyKey::SmallString(a), PropertyKey::SmallString(b)) => a == b,
            (PropertyKey::String(a), PropertyKey::String(b)) => {
                let r = a.into_u32() == b.into_u32();
                r
            },
            (PropertyKey::Symbol(a), PropertyKey::Symbol(b)) => {
                let r = a.into_u32() == b.into_u32();
                r
            },
            _ => {
                proof {
                    assert(self.id() != other.id());
                }
                false
            },
        }
    }
}

/// What a property definition may specify; absent fields mean "leave as is"
/// (or the default, when the property is new). Accessor pairs are not
/// modelled by this core.
#[derive(Debug, Clone, Copy, Default)]
pub struct PropertyDescriptor {
    pub value: Option<Value>,
    pub writable: Option<bool>,
    pub enumerable: Option<bool>,
    pub configurable: Option<bool>,
}

/// One stored property: a key, its value, and its three attributes.
#[derive(Debug, Clone, Copy)]
pub struct ObjectEntry {
    pub key: PropertyKey,
    pub value: Value,
    pub writable: bool,
    pub enumerable: bool,
    pub configurable: bool,
}

impl ObjectEntry {
    /// A data property with the default attributes of ordinary assignment:
    /// writable, enumerable, configurable.
    pub fn new(key: PropertyKey, value: Value) -> (r: Self)
        ensures
            r.key == key,
            r.value == value,
            r.writable,
            r.enumerable,
            r.configurable,
    {
        ObjectEntry { key, value, writable: true, enumerable: true, configurable: true }
    }
}

/// First position of `key` in the entry list, if present.
pub open spec fn spec_find_key(entries: Seq<ObjectEntry>, key: PropertyKeyId) -> Option<int>
    decreases entries.len(),
{
    if entries.len() == 0 {
        None
    } else if entries[0].key.id() == key {
        Some(0)
    } else {
        match spec_find_key(entries.skip(1), key) {
            Some(i) => Some(i + 1),
            None => None,
        }
    }
}

/// A heap-resident ordinary object record.
#[derive(Debug, Clone)]
pub struct ObjectHeapData {
    pub extensible: bool,
    pub prototype: Option<Object>,
    pub entries: Vec<ObjectEntry>,
}

/// Tag of the ordinary-object heap kind.
#[derive(Debug, Clone, Copy, Hash)]
pub struct ObjectTag;

/// Handle into the ordinary-object arena.
pub type OrdinaryObject = BaseIndex<ObjectTag>;

impl ObjectHeapData {
    /// No two entries share a key.
    pub open spec fn keys_unique(self) -> bool {
        forall|i: int, j: int|
            0 <= i < j < self.entries@.len() ==> self.entries@[i].key.id()
                != self.entries@[j].key.id()
    }

    /// A fresh record with the given prototype and no properties.
    pub fn new_with_prototype(prototype: Option<Object>) -> (r: Self)
        ensures
            r.extensible,
            r.prototype == prototype,
            r.entries@.len() == 0,
            r.keys_unique(),
    {
        ObjectHeapData { extensible: true, prototype, entries: Vec::new() }
    }

    /// Position of `key` among the entries, if stored.
    pub fn find(&self, key: PropertyKey) -> (r: Option<usize>)
        ensures
            r matches Some(i) ==> 0 <= i < self.entries@.len() && self.entries@[i as int].key.id()
                == key.id(),
            r is None ==> forall|i: int|
                0 <= i < self.entries@.len() ==> self.entries@[i].key.id() != key.id(),
    {
        let n = self.entries.len();
        let mut i: usize = 0;
        while i < n
            invariant
                n == self.entries@.len(),
                0 <= i <= n,
                forall|j: int| 0 <= j < i ==> self.entries@[j].key.id() != key.id(),
            decreases n - i,
        {
            if self.entries[i].key.same(key) {
                return Some(i);
            }
            i += 1;
        }
        None
    }

    /// The stored value under `key`, if any.
    pub fn get(&self, key: PropertyKey) -> (r: Option<Value>)
        ensures
            r matches Some(v) ==> exists|i: int|
                0 <= i < self.entries@.len() && self.entries@[i].key.id() == key.id()
                    && self.entries@[i].value == v,
            r is None ==> forall|i: int|
                0 <= i < self.entries@.len() ==> self.entries@[i].key.id() != key.id(),
    {
        match self.find(key) {
            Some(i) => Some(self.entries[i].value),
            None => None,
        }
    }

    /// Store `entry`, replacing the entry under the same key if one exists.
    pub fn set_entry(&mut self, entry: ObjectEntry)
        requires
            old(self).keys_unique(),
        ensures
            final(self).keys_unique(),
            final(self).extensible == old(self).extensible,
            final(self).prototype == old(self).prototype,
            spec_entry_lookup(final(self).entries@, entry.key.id()) == Some(entry),
            forall|k: PropertyKeyId|
                k != entry.key.id() ==> #[trigger] spec_entry_lookup(final(self).entries@, k)
                    == spec_entry_lookup(old(self).entries@, k),
    {
        let found = self.find(entry.key);
        match found {
            Some(i) => {
                let ghost old_entries = self.entries@;
                self.entries[i] = entry;
                proof {
                    assert forall|k: PropertyKeyId|
                        k != entry.key.id() implies #[trigger] spec_entry_lookup(self.entries@, k)
                        == spec_entry_lookup(old_entries, k) by {
                        lemma_lookup_update(old_entries, i as int, entry, k);
                    }
                    lemma_lookup_unique(self.entries@, i as int);
                }
            },
            None => {
                let ghost old_entries = self.entries@;
                self.entries.push(entry);
                proof {
                    assert forall|k: PropertyKeyId|
                        k != entry.key.id() implies #[trigger] spec_entry_lookup(self.entries@, k)
                        == spec_entry_lookup(old_entries, k) by {
                        lemma_lookup_push(old_entries, entry, k);
                    }
                    lemma_lookup_unique(self.entries@, self.entries@.len() - 1);
                    assert(self.entries@[self.entries@.len() - 1] == entry);
                }
            },
        }
    }
}

/// The entry stored under `key`, if any.
pub open spec fn spec_entry_lookup(entries: Seq<ObjectEntry>, key: PropertyKeyId) -> Option<
    ObjectEntry,
> {
    match spec_find_key(entries, key) {
        Some(i) => Some(entries[i]),
        None => None,
    }
}

/// `spec_find_key` finds a position holding the key it was asked about.
pub proof fn lemma_find_key_sound(entries: Seq<ObjectEntry>, key: PropertyKeyId)
    ensures
        match spec_find_key(entries, key) {
            Some(i) => 0 <= i < entries.len() && entries[i].key.id() == key,
            None => forall|i: int| 0 <= i < entries.len() ==> entries[i].key.id() != key,
        },
    decreases entries.len(),
{
    if entries.len() > 0 && entries[0].key.id() != key {
        lemma_find_key_sound(entries.skip(1), key);
        assert forall|i: int| 0 <= i < entries.len() implies (entries[i].key.id() == key ==> (
        match spec_find_key(entries, key) {
            Some(j) => true,
            None => false,
        })) by {
            if i > 0 {
                assert(entries.skip(1)[i - 1] == entries[i]);
            }
        }
    }
}

/// Updating position `i` with an entry of the same key identity does not
/// change where other keys are found.
proof fn lemma_find_key_update(
    entries: Seq<ObjectEntry>,
    i: int,
    entry: ObjectEntry,
    k: PropertyKeyId,
)
    requires
        0 <= i < entries.len(),
        entries[i].key.id() == entry.key.id(),
        k != entry.key.id(),
    ensures
        spec_find_key(entries.update(i, entry), k) == spec_find_key(entries, k),
    decreases entries.len(),
{
    let updated = entries.update(i, entry);
    if i == 0 {
        assert(updated[0] == entry);
        assert(updated.skip(1) =~= entries.skip(1));
    } else {
        assert(updated[0] == entries[0]);
        if entries[0].key.id() != k {
            assert(updated.skip(1) =~= entries.skip(1).update(i - 1, entry));
            assert(entries.skip(1)[i - 1] == entries[i]);
            lemma_find_key_update(entries.skip(1), i - 1, entry, k);
        }
    }
}

/// Updating position `i` with an entry of the same key identity does not
/// change lookups under other keys.
proof fn lemma_lookup_update(
    entries: Seq<ObjectEntry>,
    i: int,
    entry: ObjectEntry,
    k: PropertyKeyId,
)
    requires
        0 <= i < entries.len(),
        entries[i].key.id() == entry.key.id(),
        k != entry.key.id(),
    ensures
        spec_entry_lookup(entries.update(i, entry), k) == spec_entry_lookup(entries, k),
{
    let updated = entries.update(i, entry);
    lemma_find_key_update(entries, i, entry, k);
    lemma_find_key_sound(entries, k);
    match spec_find_key(entries, k) {
        Some(j) => {
            assert(entries[j].key.id() == k);
            assert(j != i);
            assert(updated[j] == entries[j]);
        },
        None => {},
    }
}

/// Appending an entry does not change where other keys are found.
proof fn lemma_find_key_push(entries: Seq<ObjectEntry>, entry: ObjectEntry, k: PropertyKeyId)
    requires
        k != entry.key.id(),
    ensures
        spec_find_key(entries.push(entry), k) == spec_find_key(entries, k),
    decreases entries.len(),
{
    let pushed = entries.push(entry);
    if entries.len() == 0 {
        assert(pushed[0] == entry);
        assert(pushed.skip(1) =~= Seq::<ObjectEntry>::empty());
        assert(spec_find_key(Seq::<ObjectEntry>::empty(), k) is None);
        assert(spec_find_key(pushed, k) is None);
    } else {
        assert(pushed[0] == entries[0]);
        if entries[0].key.id() != k {
            assert(pushed.skip(1) =~= entries.skip(1).push(entry));
            lemma_find_key_push(entries.skip(1), entry, k);
        }
    }
}

/// Appending an entry does not change lookups under other keys.
proof fn lemma_lookup_push(entries: Seq<ObjectEntry>, entry: ObjectEntry, k: PropertyKeyId)
    requires
        k != entry.key.id(),
    ensures
        spec_entry_lookup(entries.push(entry), k) == spec_entry_lookup(entries, k),
{
    let pushed = entries.push(entry);
    lemma_find_key_push(entries, entry, k);
    lemma_find_key_sound(entries, k);
    match spec_find_key(entries, k) {
        Some(j) => {
            assert(entries[j].key.id() == k);
            assert(pushed[j] == entries[j]);
        },
        None => {},
    }
}

/// When no other position shares its key, the entry at `i` is exactly what
/// the lookup under its key returns.
proof fn lemma_lookup_unique(entries: Seq<ObjectEntry>, i: int)
    requires
        0 <= i < entries.len(),
        forall|j: int|
            0 <= j < entries.len() && j != i ==> #[trigger] entries[j].key.id()
                != entries[i].key.id(),
    ensures
        spec_entry_lookup(entries, entries[i].key.id()) == Some(entries[i]),
    decreases entries.len(),
{
    if i == 0 {
        assert(spec_find_key(entries, entries[0].key.id()) == Some(0int));
    } else {
        assert(entries[0].key.id() != entries[i].key.id());
        assert(entries.skip(1)[i - 1] == entries[i]);
        assert forall|j: int|
            0 <= j < entries.skip(1).len() && j != i - 1 implies #[trigger] entries.skip(
            1,
        )[j].key.id() != entries.skip(1)[i - 1].key.id() by {
            assert(entries.skip(1)[j] == entries[j + 1]);
        }
        lemma_lookup_unique(entries.skip(1), i - 1);
        let key = entries[i].key.id();
        lemma_find_key_sound(entries.skip(1), key);
        match spec_find_key(entries.skip(1), key) {
            Some(k) => {
                assert(entries.skip(1)[k] == entries[k + 1]);
                assert(spec_find_key(entries, key) == Some(k + 1));
            },
            None => {
                assert(false);
            },
        }
    }
}

/// The closed sum of every object kind the runtime knows.
#[derive(Debug, Clone, Copy, PartialEq)]
pub enum Object {
    Object(OrdinaryObject),
    BoundFunction(BoundFunction),
    BuiltinFunction(BuiltinFunction),
    ECMAScriptFunction(ECMAScriptFunction),
    PrimitiveObject(crate::primitive_object::PrimitiveObject),
    Arguments(OrdinaryObject),
    Array(Array),
    Date(Date),
    Error(Error),
    Promise(Promise),
    RegExp(RegExp),
    SetObject(SetObject),
    AsyncGenerator(AsyncGenerator),
    Generator(Generator),
}

impl Object {
    /// The value carrying this object.
    pub fn into_value(self) -> (r: Value)
        ensures
            r == spec_object_value(self),
    {
        match self {
            Object::Object(d) => Value::Object(d),
            Object::BoundFunction(d) => Value::BoundFunction(d),
            Object::BuiltinFunction(d) => Value::BuiltinFunction(d),
            Object::ECMAScriptFunction(d) => Value::ECMAScriptFunction(d),
            Object::PrimitiveObject(d) => Value::PrimitiveObject(d),
            Object::Arguments(d) => Value::Arguments(d),
            Object::Array(d) => Value::Array(d),
            Object::Date(d) => Value::Date(d),
            Object::Error(d) => Value::Error(d),
            Object::Promise(d) => Value::Promise(d),
            Object::RegExp(d) => Value::RegExp(d),
            Object::SetObject(d) => Value::SetObject(d),
            Object::AsyncGenerator(d) => Value::AsyncGenerator(d),
            Object::Generator(d) => Value::Generator(d),
        }
    }

    /// The object a value carries, if it carries one.
    pub fn try_from_value(value: Value) -> (r: Option<Object>)
        ensures
            r == spec_value_object(value),
    {
        match value {
            Value::Object(d) => Some(Object::Object(d)),
            Value::BoundFunction(d) => Some(Object::BoundFunction(d)),
            Value::BuiltinFunction(d) => Some(Object::BuiltinFunction(d)),
            Value::ECMAScriptFunction(d) => Some(Object::ECMAScriptFunction(d)),
            Value::PrimitiveObject(d) => Some(Object::PrimitiveObject(d)),
            Value::Arguments(d) => Some(Object::Arguments(d)),
            Value::Array(d) => Some(Object::Array(d)),
            Value::Date(d) => Some(Object::Date(d)),
            Value::Error(d) => Some(Object::Error(d)),
            Value::Promise(d) => Some(Object::Promise(d)),
            Value::RegExp(d) => Some(Object::RegExp(d)),
            Value::SetObject(d) => Some(Object::SetObject(d)),
            Value::AsyncGenerator(d) => Some(Object::AsyncGenerator(d)),
            Value::Generator(d) => Some(Object::Generator(d)),
            _ => None,
        }
    }
}

/// The value carrying a given object.
pub open spec fn spec_object_value(o: Object) -> Value {
    match o {
        Object::Object(d) => Value::Object(d),
        Object::BoundFunction(d) => Value::BoundFunction(d),
        Object::BuiltinFunction(d) => Value::BuiltinFunction(d),
        Object::ECMAScriptFunction(d) => Value::ECMAScriptFunction(d),
        Object::PrimitiveObject(d) => Value::PrimitiveObject(d),
        Object::Arguments(d) => Value::Arguments(d),
        Object::Array(d) => Value::Array(d),
        Object::Date(d) => Value::Date(d),
        Object::Error(d) => Value::Error(d),
        Object::Promise(d) => Value::Promise(d),
        Object::RegExp(d) => Value::RegExp(d),
        Object::SetObject(d) => Value::SetObject(d),
        Object::AsyncGenerator(d) => Value::AsyncGenerator(d),
        Object::Generator(d) => Value::Generator(d),
    }
}

/// The object a value carries, if it carries one.
pub open spec fn spec_value_object(value: Value) -> Option<Object> {
    match value {
        Value::Object(d) => Some(Object::Object(d)),
        Value::BoundFunction(d) => Some(Object::BoundFunction(d)),
        Value::BuiltinFunction(d) => Some(Object::BuiltinFunction(d)),
        Value::ECMAScriptFunction(d) => Some(Object::ECMAScriptFunction(d)),
        Value::PrimitiveObject(d) => Some(Object::PrimitiveObject(d)),
        Value::Arguments(d) => Some(Object::Arguments(d)),
        Value::Array(d) => Some(Object::Array(d)),
        Value::Date(d) => Some(Object::Date(d)),
        Value::Error(d) => Some(Object::Error(d)),
        Value::Promise(d) => Some(Object::Promise(d)),
        Value::RegExp(d) => Some(Object::RegExp(d)),
        Value::SetObject(d) => Some(Object::SetObject(d)),
        Value::AsyncGenerator(d) => Some(Object::AsyncGenerator(d)),
        Value::Generator(d) => Some(Object::Generator(d)),
        _ => None,
    }
}

} // verus!
