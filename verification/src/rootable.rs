//! Rooting: keeping values alive and findable across collection pauses.
//!
//! A stack-only value roots itself — it holds no handle. A heap value is
//! parked in the runtime's root list and addressed by a stable root slot
//! reference, so the collector can rewrite the parked handle while holders
//! keep their slot number.

use vstd::prelude::*;

verus! {

use crate::array::Array;
use crate::async_generator::AsyncGenerator;
use crate::bigint::HeapBigInt;
use crate::date::Date;
use crate::error::Error;
use crate::function::{BoundFunction, BuiltinFunction, ECMAScriptFunction};
use crate::generator::Generator;
use crate::number::HeapNumber;
use crate::object::OrdinaryObject;
use crate::primitive_object::PrimitiveObject;
use crate::promise::Promise;
use crate::regexp::RegExp;
use crate::set_object::SetObject;
use crate::string::HeapString;
use crate::symbol::Symbol;
use crate::value::Value;
use crate::vm::Executable;

/// A stable reference to one slot of the runtime's root list.
#[derive(Debug, Clone, Copy, PartialEq, Eq)]
pub struct HeapRootRef {
    pub slot: u32,
}

/// The heap-resident payloads a root slot can hold.
#[derive(Debug, Clone, Copy)]
pub enum HeapRootData {
    /// A vacated slot.
    Empty,
    String(HeapString),
    Symbol(Symbol),
    Number(HeapNumber),
    BigInt(HeapBigInt),
    Object(OrdinaryObject),
    BoundFunction(BoundFunction),
    BuiltinFunction(BuiltinFunction),
    ECMAScriptFunction(ECMAScriptFunction),
    PrimitiveObject(PrimitiveObject),
    Arguments(OrdinaryObject),
    Array(Array),
    Date(Date),
    Error(Error),
    Promise(Promise),
    RegExp(RegExp),
    SetObject(SetObject),
    AsyncGenerator(AsyncGenerator),
    Generator(Generator),
    Executable(Executable),
}

/// How a rooted value is represented: stack-only payloads stay inline, heap
/// values become a root-slot reference.
#[derive(Debug, Clone, Copy)]
pub enum ValueRootRepr {
    Undefined,
    Null,
    Boolean(bool),
    SmallString(crate::small_string::SmallString),
    Integer(crate::small_integer::SmallInteger),
    SmallF64(crate::small_f64::SmallF64),
    SmallBigInt(crate::small_bigint::SmallBigInt),
    HeapRef(HeapRootRef),
}

/// A value scoped to outlive collection pauses: either carried inline, or
/// parked in a root slot.
#[derive(Debug, Clone, Copy)]
pub struct Scoped {
    pub inner: ValueRootRepr,
}

impl Scoped {
    /// Wrap a root representation.
    pub fn from_root_repr(inner: ValueRootRepr) -> (r: Scoped)
        ensures
            r.inner == inner,
    {
        Scoped { inner }
    }
}

impl Value {
    /// Split a value for rooting: stack-only payloads come back inline
    /// (`Ok`), heap values come back as the root data to park (`Err`).
    pub fn to_root_repr(value: Value) -> (r: Result<ValueRootRepr, HeapRootData>)
        ensures
            r == spec_to_root_repr(value),
            value.spec_is_stack_only() <==> r is Ok,
    {
        match value {
            Value::Undefined => Ok(ValueRootRepr::Undefined),
            Value::Null => Ok(ValueRootRepr::Null),
            Value::Boolean(b) => Ok(ValueRootRepr::Boolean(b)),
            Value::String(h) => Err(HeapRootData::String(h)),
            Value::SmallString(s) => Ok(ValueRootRepr::SmallString(s)),
            Value::Symbol(h) => Err(HeapRootData::Symbol(h)),
            Value::Number(h) => Err(HeapRootData::Number(h)),
            Value::Integer(i) => Ok(ValueRootRepr::Integer(i)),
            Value::SmallF64(f) => Ok(ValueRootRepr::SmallF64(f)),
            Value::BigInt(h) => Err(HeapRootData::BigInt(h)),
            Value::SmallBigInt(b) => Ok(ValueRootRepr::SmallBigInt(b)),
            Value::Object(h) => Err(HeapRootData::Object(h)),
            Value::BoundFunction(h) => Err(HeapRootData::BoundFunction(h)),
            Value::BuiltinFunction(h) => Err(HeapRootData::BuiltinFunction(h)),
            Value::ECMAScriptFunction(h) => Err(HeapRootData::ECMAScriptFunction(h)),
            Value::PrimitiveObject(h) => Err(HeapRootData::PrimitiveObject(h)),
            Value::Arguments(h) => Err(HeapRootData::Arguments(h)),
            Value::Array(a) => Err(HeapRootData::Array(a)),
            Value::Date(h) => Err(HeapRootData::Date(h)),
            Value::Error(h) => Err(HeapRootData::Error(h)),
            Value::Promise(h) => Err(HeapRootData::Promise(h)),
            Value::RegExp(h) => Err(HeapRootData::RegExp(h)),
            Value::SetObject(s) => Err(HeapRootData::SetObject(s)),
            Value::AsyncGenerator(g) => Err(HeapRootData::AsyncGenerator(g)),
            Value::Generator(g) => Err(HeapRootData::Generator(g)),
        }
    }

    /// Read a root representation back: inline payloads come back as the
    /// value (`Ok`), a parked value comes back as its slot (`Err`).
    pub fn from_root_repr(value: &ValueRootRepr) -> (r: Result<Value, HeapRootRef>)
        ensures
            match *value {
                ValueRootRepr::Undefined => r == Ok::<Value, HeapRootRef>(Value::Undefined),
                ValueRootRepr::Null => r == Ok::<Value, HeapRootRef>(Value::Null),
                ValueRootRepr::Boolean(b) => r == Ok::<Value, HeapRootRef>(Value::Boolean(b)),
                ValueRootRepr::SmallString(s) => r == Ok::<Value, HeapRootRef>(
                    Value::SmallString(s),
                ),
                ValueRootRepr::Integer(i) => r == Ok::<Value, HeapRootRef>(Value::Integer(i)),
                ValueRootRepr::SmallF64(f) => r == Ok::<Value, HeapRootRef>(Value::SmallF64(f)),
                ValueRootRepr::SmallBigInt(b) => r == Ok::<Value, HeapRootRef>(
                    Value::SmallBigInt(b),
                ),
                ValueRootRepr::HeapRef(h) => r == Err::<Value, HeapRootRef>(h),
            },
    {
        match *value {
            ValueRootRepr::Undefined => Ok(Value::Undefined),
            ValueRootRepr::Null => Ok(Value::Null),
            ValueRootRepr::Boolean(b) => Ok(Value::Boolean(b)),
            ValueRootRepr::SmallString(s) => Ok(Value::SmallString(s)),
            ValueRootRepr::Integer(i) => Ok(Value::Integer(i)),
            ValueRootRepr::SmallF64(f) => Ok(Value::SmallF64(f)),
            ValueRootRepr::SmallBigInt(b) => Ok(Value::SmallBigInt(b)),
            ValueRootRepr::HeapRef(h) => Err(h),
        }
    }

    /// Represent a parked slot.
    pub fn from_heap_ref(heap_ref: HeapRootRef) -> (r: ValueRootRepr)
        ensures
            r == ValueRootRepr::HeapRef(heap_ref),
    {
        ValueRootRepr::HeapRef(heap_ref)
    }

    /// Read parked root data back as a value, when the data is a language
    /// value. Root slots can also park non-value runtime references (a
    /// compiled executable), which have no value reading.
    pub fn from_heap_data(heap_data: HeapRootData) -> (r: Option<Value>)
        ensures
            r == spec_from_heap_data(heap_data),
    {
        match heap_data {
            HeapRootData::Empty => None,
            HeapRootData::String(h) => Some(Value::String(h)),
            HeapRootData::Symbol(h) => Some(Value::Symbol(h)),
            HeapRootData::Number(h) => Some(Value::Number(h)),
            HeapRootData::BigInt(h) => Some(Value::BigInt(h)),
            HeapRootData::Object(h) => Some(Value::Object(h)),
            HeapRootData::BoundFunction(h) => Some(Value::BoundFunction(h)),
            HeapRootData::BuiltinFunction(h) => Some(Value::BuiltinFunction(h)),
            HeapRootData::ECMAScriptFunction(h) => Some(Value::ECMAScriptFunction(h)),
            HeapRootData::PrimitiveObject(h) => Some(Value::PrimitiveObject(h)),
            HeapRootData::Arguments(h) => Some(Value::Arguments(h)),
            HeapRootData::Array(a) => Some(Value::Array(a)),
            HeapRootData::Date(h) => Some(Value::Date(h)),
            HeapRootData::Error(h) => Some(Value::Error(h)),
            HeapRootData::Promise(h) => Some(Value::Promise(h)),
            HeapRootData::RegExp(h) => Some(Value::RegExp(h)),
            HeapRootData::SetObject(s) => Some(Value::SetObject(s)),
            HeapRootData::AsyncGenerator(g) => Some(Value::AsyncGenerator(g)),
            HeapRootData::Generator(g) => Some(Value::Generator(g)),
            HeapRootData::Executable(_) => None,
        }
    }

    /// Scope a stack-only value: no heap data is involved, so the scope is a
    /// no-op wrapper. A value that needs rooting is excluded: handing one
    /// here is a programming-error-class failure.
    pub fn scope_static(self) -> (r: Scoped)
        requires
            self.spec_is_stack_only(),
        ensures
            spec_from_root_repr(r.inner) == Ok::<Value, HeapRootRef>(self),
    {
        let key_root_repr = match self {
            Value::Undefined => ValueRootRepr::Undefined,
            Value::Null => ValueRootRepr::Null,
            Value::Boolean(b) => ValueRootRepr::Boolean(b),
            Value::SmallString(s) => ValueRootRepr::SmallString(s),
            Value::Integer(i) => ValueRootRepr::Integer(i),
            Value::SmallF64(f) => ValueRootRepr::SmallF64(f),
            Value::SmallBigInt(b) => ValueRootRepr::SmallBigInt(b),
            _ => {
                proof {
                    assert(false);
                }
                vstd::pervasive::unreached()
            },
        };
        Scoped::from_root_repr(key_root_repr)
    }
}

/// The rooting split of a value.
pub open spec fn spec_to_root_repr(value: Value) -> Result<ValueRootRepr, HeapRootData> {
    match value {
        Value::Undefined => Ok(ValueRootRepr::Undefined),
        Value::Null => Ok(ValueRootRepr::Null),
        Value::Boolean(b) => Ok(ValueRootRepr::Boolean(b)),
        Value::String(h) => Err(HeapRootData::String(h)),
        Value::SmallString(s) => Ok(ValueRootRepr::SmallString(s)),
        Value::Symbol(h) => Err(HeapRootData::Symbol(h)),
        Value::Number(h) => Err(HeapRootData::Number(h)),
        Value::Integer(i) => Ok(ValueRootRepr::Integer(i)),
        Value::SmallF64(f) => Ok(ValueRootRepr::SmallF64(f)),
        Value::BigInt(h) => Err(HeapRootData::BigInt(h)),
        Value::SmallBigInt(b) => Ok(ValueRootRepr::SmallBigInt(b)),
        Value::Object(h) => Err(HeapRootData::Object(h)),
        Value::BoundFunction(h) => Err(HeapRootData::BoundFunction(h)),
        Value::BuiltinFunction(h) => Err(HeapRootData::BuiltinFunction(h)),
        Value::ECMAScriptFunction(h) => Err(HeapRootData::ECMAScriptFunction(h)),
        Value::PrimitiveObject(h) => Err(HeapRootData::PrimitiveObject(h)),
        Value::Arguments(h) => Err(HeapRootData::Arguments(h)),
        Value::Array(a) => Err(HeapRootData::Array(a)),
        Value::Date(h) => Err(HeapRootData::Date(h)),
        Value::Error(h) => Err(HeapRootData::Error(h)),
        Value::Promise(h) => Err(HeapRootData::Promise(h)),
        Value::RegExp(h) => Err(HeapRootData::RegExp(h)),
        Value::SetObject(s) => Err(HeapRootData::SetObject(s)),
        Value::AsyncGenerator(g) => Err(HeapRootData::AsyncGenerator(g)),
        Value::Generator(g) => Err(HeapRootData::Generator(g)),
    }
}

/// The value reading of parked root data, when it has one.
pub open spec fn spec_from_heap_data(heap_data: HeapRootData) -> Option<Value> {
    match heap_data {
        HeapRootData::Empty => None,
        HeapRootData::String(h) => Some(Value::String(h)),
        HeapRootData::Symbol(h) => Some(Value::Symbol(h)),
        HeapRootData::Number(h) => Some(Value::Number(h)),
        HeapRootData::BigInt(h) => Some(Value::BigInt(h)),
        HeapRootData::Object(h) => Some(Value::Object(h)),
        HeapRootData::BoundFunction(h) => Some(Value::BoundFunction(h)),
        HeapRootData::BuiltinFunction(h) => Some(Value::BuiltinFunction(h)),
        HeapRootData::ECMAScriptFunction(h) => Some(Value::ECMAScriptFunction(h)),
        HeapRootData::PrimitiveObject(h) => Some(Value::PrimitiveObject(h)),
        HeapRootData::Arguments(h) => Some(Value::Arguments(h)),
        HeapRootData::Array(a) => Some(Value::Array(a)),
        HeapRootData::Date(h) => Some(Value::Date(h)),
        HeapRootData::Error(h) => Some(Value::Error(h)),
        HeapRootData::Promise(h) => Some(Value::Promise(h)),
        HeapRootData::RegExp(h) => Some(Value::RegExp(h)),
        HeapRootData::SetObject(s) => Some(Value::SetObject(s)),
        HeapRootData::AsyncGenerator(g) => Some(Value::AsyncGenerator(g)),
        HeapRootData::Generator(g) => Some(Value::Generator(g)),
        HeapRootData::Executable(_) => None,
    }
}

/// The value reading of an inline root representation.
pub open spec fn spec_from_root_repr(repr: ValueRootRepr) -> Result<Value, HeapRootRef> {
    match repr {
        ValueRootRepr::Undefined => Ok(Value::Undefined),
        ValueRootRepr::Null => Ok(Value::Null),
        ValueRootRepr::Boolean(b) => Ok(Value::Boolean(b)),
        ValueRootRepr::SmallString(s) => Ok(Value::SmallString(s)),
        ValueRootRepr::Integer(i) => Ok(Value::Integer(i)),
        ValueRootRepr::SmallF64(f) => Ok(Value::SmallF64(f)),
        ValueRootRepr::SmallBigInt(b) => Ok(Value::SmallBigInt(b)),
        ValueRootRepr::HeapRef(h) => Err(h),
    }
}

/// Splitting and rejoining a value through its root representation gives the
/// value back: rooting loses nothing, whichever side of the split the value
/// lands on.
pub proof fn lemma_root_repr_round_trip(value: Value)
    ensures
        match spec_to_root_repr(value) {
            Ok(repr) => spec_from_root_repr(repr) == Ok::<Value, HeapRootRef>(value),
            Err(data) => spec_from_heap_data(data) == Some(value),
        },
{
}

} // verus!
