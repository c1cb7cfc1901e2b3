//! The language value: a tagged union of inline scalars and heap handles,
//! constrained to one machine word including its tag.
//!
//! Inline variants carry their whole payload in at most seven bytes; every
//! other variant is a 32-bit handle into the arena of its kind. The one-word
//! bound — for the value and for an optional value — is stated as a layout
//! fact the compiler checks at build time.

use vstd::prelude::*;
use vstd::string::StringSliceAdditionalSpecFns;

verus! {

use crate::agent::Agent;
use crate::array::Array;
use crate::error::JsError;
use crate::number::Number;
use crate::async_generator::AsyncGenerator;
use crate::bigint::HeapBigInt;
use crate::date::Date;
use crate::error::Error;
use crate::function::{BoundFunction, BuiltinFunction, ECMAScriptFunction};
use crate::generator::Generator;
use crate::number::HeapNumber;
use crate::object::OrdinaryObject;
use crate::primitive_object::PrimitiveObject;
use crate::promise::Promise;
use crate::regexp::RegExp;
use crate::set_object::SetObject;
use crate::small_bigint::SmallBigInt;
use crate::small_f64::SmallF64;
use crate::small_integer::SmallInteger;
use crate::small_string::SmallString;
use crate::string::{HeapString, JsString};
use crate::symbol::Symbol;

/// A language value: one machine word, tag included.
#[derive(Debug, Clone, Copy, PartialEq)]
pub enum Value {
    /// The undefined value.
    Undefined,
    /// The null value.
    Null,
    /// A boolean, inline.
    Boolean(bool),
    /// A string on the heap.
    String(HeapString),
    /// Up to seven bytes of string, inline.
    SmallString(SmallString),
    /// A symbol on the heap.
    Symbol(Symbol),
    /// A double on the heap.
    Number(HeapNumber),
    /// A 53-bit integer, inline.
    Integer(SmallInteger),
    /// A 56-bit double, inline.
    SmallF64(SmallF64),
    /// A big-integer on the heap.
    BigInt(HeapBigInt),
    /// A 56-bit big-integer, inline.
    SmallBigInt(SmallBigInt),
    /// An ordinary object.
    Object(OrdinaryObject),
    /// A function produced by `bind`.
    BoundFunction(BoundFunction),
    /// A built-in (native) function.
    BuiltinFunction(BuiltinFunction),
    /// A function compiled from source.
    ECMAScriptFunction(ECMAScriptFunction),
    /// A primitive wrapper object.
    PrimitiveObject(PrimitiveObject),
    /// An unmapped arguments object: an ordinary object with no parameter
    /// map.
    Arguments(OrdinaryObject),
    /// An array object.
    Array(Array),
    /// A date object.
    Date(Date),
    /// An error object.
    Error(Error),
    /// A promise object.
    Promise(Promise),
    /// A regular-expression object.
    RegExp(RegExp),
    /// A set object.
    SetObject(SetObject),
    /// An async-generator object.
    AsyncGenerator(AsyncGenerator),
    /// A generator object.
    Generator(Generator),
}

impl From<bool> for Value {
    /// A boolean value.
    fn from(value: bool) -> (r: Self)
        ensures
            r == Value::Boolean(value),
    {
        Value::Boolean(value)
    }
}

impl vstd::std_specs::convert::FromSpecImpl<bool> for Value {
    open spec fn obeys_from_spec() -> bool {
        true
    }

    open spec fn from_spec(value: bool) -> Self {
        Value::Boolean(value)
    }
}

impl Default for Value {
    /// The default value is `undefined`.
    fn default() -> (r: Self)
        ensures
            r == Value::Undefined,
    {
        Value::Undefined
    }
}

impl Value {
    /// Is this value `true`?
    pub fn is_true(self) -> (r: bool)
        ensures
            r == (self == Value::Boolean(true)),
    {
        matches!(self, Value::Boolean(true))
    }

    /// Is this value `false`?
    pub fn is_false(self) -> (r: bool)
        ensures
            r == (self == Value::Boolean(false)),
    {
        matches!(self, Value::Boolean(false))
    }

    /// Does this value carry an object?
    pub open spec fn spec_is_object(self) -> bool {
        crate::object::spec_value_object(self) is Some
    }

    /// Does this value carry an object?
    pub fn is_object(self) -> (r: bool)
        ensures
            r == self.spec_is_object(),
    {
        crate::object::Object::try_from_value(self).is_some()
    }

    /// Does this value carry a callable function?
    pub open spec fn spec_is_function(self) -> bool {
        self matches Value::BoundFunction(_) || self matches Value::BuiltinFunction(_)
            || self matches Value::ECMAScriptFunction(_)
    }

    /// Does this value carry a callable function?
    pub fn is_function(self) -> (r: bool)
        ensures
            r == self.spec_is_function(),
    {
        matches!(
            self,
            Value::BoundFunction(_) | Value::BuiltinFunction(_) | Value::ECMAScriptFunction(_)
        )
    }

    /// Is this value a primitive (not an object)?
    pub fn is_primitive(self) -> (r: bool)
        ensures
            r == !self.spec_is_object(),
    {
        !self.is_object()
    }

    /// Does this value carry a string?
    pub open spec fn spec_is_string(self) -> bool {
        self matches Value::String(_) || self matches Value::SmallString(_)
    }

    /// Does this value carry a string?
    pub fn is_string(self) -> (r: bool)
        ensures
            r == self.spec_is_string(),
    {
        matches!(self, Value::String(_) | Value::SmallString(_))
    }

    /// Is this value a boolean?
    pub fn is_boolean(self) -> (r: bool)
        ensures
            r == (self matches Value::Boolean(_)),
    {
        matches!(self, Value::Boolean(_))
    }

    /// Is this value `null`?
    pub fn is_null(self) -> (r: bool)
        ensures
            r == (self == Value::Null),
    {
        matches!(self, Value::Null)
    }

    /// Is this value `undefined`?
    pub fn is_undefined(self) -> (r: bool)
        ensures
            r == (self == Value::Undefined),
    {
        matches!(self, Value::Undefined)
    }

    /// Does this value carry a big-integer?
    pub open spec fn spec_is_bigint(self) -> bool {
        self matches Value::BigInt(_) || self matches Value::SmallBigInt(_)
    }

    /// Does this value carry a big-integer?
    pub fn is_bigint(self) -> (r: bool)
        ensures
            r == self.spec_is_bigint(),
    {
        matches!(self, Value::BigInt(_) | Value::SmallBigInt(_))
    }

    /// Does this value carry a symbol?
    pub fn is_symbol(self) -> (r: bool)
        ensures
            r == (self matches Value::Symbol(_)),
    {
        matches!(self, Value::Symbol(_))
    }

    /// Does this value carry a number or a big-integer?
    pub open spec fn spec_is_numeric(self) -> bool {
        self.spec_is_number() || self.spec_is_bigint()
    }

    /// Does this value carry a number or a big-integer?
    pub fn is_numeric(self) -> (r: bool)
        ensures
            r == self.spec_is_numeric(),
    {
        matches!(
            self,
            Value::Number(_) | Value::SmallF64(_) | Value::Integer(_) | Value::BigInt(_)
                | Value::SmallBigInt(_)
        )
    }

    /// Does this value carry a number?
    pub open spec fn spec_is_number(self) -> bool {
        self matches Value::Number(_) || self matches Value::SmallF64(_) || self matches Value::Integer(
            _,
        )
    }

    /// Does this value carry a number?
    pub fn is_number(self) -> (r: bool)
        ensures
            r == self.spec_is_number(),
    {
        matches!(self, Value::Number(_) | Value::SmallF64(_) | Value::Integer(_))
    }

    /// Is this value an inline integer?
    pub fn is_integer(self) -> (r: bool)
        ensures
            r == (self matches Value::Integer(_)),
    {
        matches!(self, Value::Integer(_))
    }

    /// Is this value the inline empty string?
    pub fn is_empty_string(self) -> (r: bool)
        ensures
            r == (self matches Value::SmallString(s) && s@ == Seq::<u8>::empty()),
    {
        if let Value::SmallString(s) = self {
            let empty = s.is_empty();
            proof {
                if empty {
                    assert(s@ =~= Seq::<u8>::empty());
                }
            }
            empty
        } else {
            false
        }
    }

    /// Is this value a stack-only primitive, storable without rooting?
    pub open spec fn spec_is_stack_only(self) -> bool {
        match self {
            Value::Undefined => true,
            Value::Null => true,
            Value::Boolean(_) => true,
            Value::SmallString(_) => true,
            Value::Integer(_) => true,
            Value::SmallF64(_) => true,
            Value::SmallBigInt(_) => true,
            _ => false,
        }
    }
}

impl Value {
    /// A value carrying the given text: inline when it fits, heap-resident
    /// otherwise.
    pub fn from_str(agent: &mut Agent, text: &str) -> (r: Value)
        requires
            old(agent).heap.strings@.len() < u32::MAX,
        ensures
            r.spec_is_string(),
            spec_value_string_bytes(final(agent).heap, r) == text.spec_bytes(),
            // The representation is fixed by the content: inline exactly
            // when at most seven sentinel-free bytes, with no heap
            // allocation; anything longer owns a fresh heap record.
            ((r matches Value::SmallString(_)) <==> (text.spec_bytes().len() <= 7 && (forall|i: int|
                0 <= i < text.spec_bytes().len() ==> text.spec_bytes()[i] != 0xFF))),
            (r matches Value::SmallString(_) ==> final(agent).heap == old(agent).heap),
            (r matches Value::String(h) ==> h.index() == old(agent).heap.strings@.len() && final(agent).heap.strings@.len() == old(agent).heap.strings@.len() + 1),
            final(agent).heap == (crate::heap::Heap {
                strings: final(agent).heap.strings,
                ..old(agent).heap
            }),
            final(agent).heap.strings@.len() <= old(agent).heap.strings@.len() + 1,
            crate::agent::spec_strings_preserved(old(agent).heap, final(agent).heap),
            final(agent).execution_context_stack == old(agent).execution_context_stack,
            final(agent).globals == old(agent).globals,
            final(agent).weak_refs == old(agent).weak_refs,
            final(agent).realm == old(agent).realm,
    {
        let bytes = crate::agent::str_to_bytes(text);
        let s = agent.alloc_string_from_bytes(bytes);
        match s {
            JsString::Small(small) => Value::SmallString(small),
            JsString::Heap(h) => Value::String(h),
        }
    }

    /// A value carrying an owned string.
    pub fn from_string(agent: &mut Agent, string: String) -> (r: Value)
        requires
            old(agent).heap.strings@.len() < u32::MAX,
        ensures
            r.spec_is_string(),
            spec_value_string_bytes(final(agent).heap, r) == vstd::utf8::encode_utf8(string@),
            ((r matches Value::SmallString(_)) <==> (vstd::utf8::encode_utf8(string@).len() <= 7
                && (forall|i: int|
                0 <= i < vstd::utf8::encode_utf8(string@).len() ==> vstd::utf8::encode_utf8(
                    string@,
                )[i] != 0xFF))),
            (r matches Value::SmallString(_) ==> final(agent).heap == old(agent).heap),
    {
        Value::from_str(agent, string.as_str())
    }

    /// A value carrying static text; the content is stored like any other
    /// string.
    pub fn from_static_str(agent: &mut Agent, text: &str) -> (r: Value)
        requires
            old(agent).heap.strings@.len() < u32::MAX,
        ensures
            r.spec_is_string(),
            spec_value_string_bytes(final(agent).heap, r) == text.spec_bytes(),
            ((r matches Value::SmallString(_)) <==> (text.spec_bytes().len() <= 7 && (forall|i: int|
                0 <= i < text.spec_bytes().len() ==> text.spec_bytes()[i] != 0xFF))),
            (r matches Value::SmallString(_) ==> final(agent).heap == old(agent).heap),
    {
        Value::from_str(agent, text)
    }

    /// A number value from a native integer in the safe range: always the
    /// inline integer form.
    pub fn from_i64(agent: &mut Agent, value: i64) -> (r: Value)
        requires
            crate::small_integer::MIN_SAFE_INTEGER <= value
                <= crate::small_integer::MAX_SAFE_INTEGER,
        ensures
            r matches Value::Integer(i) && i.value() == value,
    {
        Value::Integer(SmallInteger::from_i64(value))
    }

    /// The NaN value.
    pub fn nan() -> (r: Value)
        ensures
            r matches Value::SmallF64(f) && f.spec_is_nan(),
    {
        Value::SmallF64(SmallF64::nan())
    }

    /// The positive-infinity value.
    pub fn pos_inf() -> (r: Value)
        ensures
            r matches Value::SmallF64(f) && f.spec_is_pos_infinity(),
    {
        Value::SmallF64(SmallF64::pos_inf())
    }

    /// The negative-infinity value.
    pub fn neg_inf() -> (r: Value)
        ensures
            r matches Value::SmallF64(f) && f.spec_is_neg_infinity(),
    {
        Value::SmallF64(SmallF64::neg_inf())
    }

    /// The positive-zero value.
    pub fn pos_zero() -> (r: Value)
        ensures
            r matches Value::SmallF64(f) && f.spec_is_pos_zero(),
    {
        Value::SmallF64(SmallF64::pos_zero())
    }

    /// The negative-zero value.
    pub fn neg_zero() -> (r: Value)
        ensures
            r matches Value::SmallF64(f) && f.spec_is_neg_zero(),
    {
        Value::SmallF64(SmallF64::neg_zero())
    }

    /// Is this value a number or big-integer reading zero with a positive
    /// sign (or an unsigned zero)?
    pub fn is_pos_zero(self, agent: &Agent) -> (r: bool)
        requires
            (self matches Value::Number(h) ==> agent.heap.numbers.valid(h)),
            (self matches Value::BigInt(h) ==> agent.heap.bigints.valid(h)),
        ensures
            r == spec_value_is_pos_zero(agent.heap, self),
    {
        match self {
            Value::Integer(i) => i.into_i64() == 0,
            Value::SmallF64(f) => f.is_pos_zero(),
            Value::Number(h) => agent.heap.numbers.get(h).bits == 0,
            Value::SmallBigInt(b) => b.into_i64() == 0,
            Value::BigInt(h) => agent.heap.bigints.get(h).data == 0,
            _ => false,
        }
    }

    /// Is this value the negative-zero double?
    pub fn is_neg_zero(self, agent: &Agent) -> (r: bool)
        requires
            (self matches Value::Number(h) ==> agent.heap.numbers.valid(h)),
        ensures
            r == spec_value_is_neg_zero(agent.heap, self),
    {
        match self {
            Value::SmallF64(f) => f.is_neg_zero(),
            Value::Number(h) => agent.heap.numbers.get(h).bits
                == crate::number::F64_NEG_ZERO_BITS,
            _ => false,
        }
    }

    /// Is this value the positive-infinity double?
    pub fn is_pos_infinity(self, agent: &Agent) -> (r: bool)
        requires
            (self matches Value::Number(h) ==> agent.heap.numbers.valid(h)),
        ensures
            r == spec_value_is_pos_infinity(agent.heap, self),
    {
        match self {
            Value::SmallF64(f) => f.is_pos_infinity(),
            Value::Number(h) => agent.heap.numbers.get(h).bits
                == crate::number::F64_POS_INFINITY_BITS,
            _ => false,
        }
    }

    /// Is this value the negative-infinity double?
    pub fn is_neg_infinity(self, agent: &Agent) -> (r: bool)
        requires
            (self matches Value::Number(h) ==> agent.heap.numbers.valid(h)),
        ensures
            r == spec_value_is_neg_infinity(agent.heap, self),
    {
        match self {
            Value::SmallF64(f) => f.is_neg_infinity(),
            Value::Number(h) => agent.heap.numbers.get(h).bits
                == crate::number::F64_NEG_INFINITY_BITS,
            _ => false,
        }
    }

    /// Is this value a NaN double?
    pub fn is_nan(self, agent: &Agent) -> (r: bool)
        requires
            (self matches Value::Number(h) ==> agent.heap.numbers.valid(h)),
        ensures
            r == spec_value_is_nan(agent.heap, self),
    {
        match self {
            Value::SmallF64(f) => f.is_nan(),
            Value::Number(h) => {
                let bits = agent.heap.numbers.get(h).bits;
                let exp = (bits / 0x10000000000000) % 0x800;
                let mantissa = bits % 0x10000000000000;
                exp == 0x7FF && mantissa != 0
            },
            _ => false,
        }
    }

    /// ToNumber of this value; see [`crate::type_conversion::to_number`].
    pub fn to_number(self, agent: &mut Agent) -> (r: Result<Number, JsError>)
        requires
            (self matches Value::String(h) ==> old(agent).heap.strings.valid(h)),
            old(agent).heap.strings@.len() < u32::MAX,
            old(agent).heap.errors@.len() < u32::MAX,
        ensures
            r is Err <==> (self.spec_is_bigint() || self matches Value::Symbol(_)
                || self.spec_is_object()),
    {
        crate::type_conversion::to_number(agent, self)
    }

    /// ToBigInt of this value; see [`crate::type_conversion::to_big_int`].
    pub fn to_bigint(self, agent: &mut Agent) -> (r: Result<crate::bigint::BigInt, JsError>)
        requires
            old(agent).heap.strings@.len() < u32::MAX,
            old(agent).heap.errors@.len() < u32::MAX,
        ensures
            r is Err <==> !self.spec_is_bigint(),
    {
        crate::type_conversion::to_big_int(agent, self)
    }

    /// ToNumeric: a big-integer stays a big-integer, anything else converts
    /// as a number.
    pub fn to_numeric(self, agent: &mut Agent) -> (r: Result<Value, JsError>)
        requires
            (self matches Value::String(h) ==> old(agent).heap.strings.valid(h)),
            old(agent).heap.strings@.len() < u32::MAX,
            old(agent).heap.errors@.len() < u32::MAX,
        ensures
            r is Err <==> (self matches Value::Symbol(_) || self.spec_is_object()),
            self.spec_is_bigint() ==> r == Ok::<Value, JsError>(self),
    {
        if self.is_bigint() {
            return Ok(self);
        }
        match crate::type_conversion::to_number(agent, self) {
            Ok(n) => Ok(
                match n {
                    Number::Number(h) => Value::Number(h),
                    Number::Integer(i) => Value::Integer(i),
                    Number::SmallF64(f) => Value::SmallF64(f),
                },
            ),
            Err(e) => Err(e),
        }
    }

    /// ToUint32 of this value; see [`crate::type_conversion::to_uint32`].
    pub fn to_uint32(self, agent: &mut Agent) -> (r: Result<u32, JsError>)
        requires
            (self matches Value::String(h) ==> old(agent).heap.strings.valid(h)),
            (self matches Value::Number(h) ==> old(agent).heap.numbers.valid(h)),
            !crate::type_conversion::spec_is_inexact_number(old(agent).heap, self),
            old(agent).heap.strings@.len() < u32::MAX,
            old(agent).heap.errors@.len() < u32::MAX,
        ensures
            r is Err <==> (self.spec_is_bigint() || self matches Value::Symbol(_)
                || self.spec_is_object()),
            r matches Ok(n) ==> n == crate::type_conversion::spec_to_uint32(
                old(agent).heap,
                self,
            ),
    {
        crate::type_conversion::to_uint32(agent, self)
    }

    /// ToInt32: the unsigned reading, reinterpreted as two's complement.
    pub fn to_int32(self, agent: &mut Agent) -> (r: Result<i32, JsError>)
        requires
            (self matches Value::String(h) ==> old(agent).heap.strings.valid(h)),
            (self matches Value::Number(h) ==> old(agent).heap.numbers.valid(h)),
            !crate::type_conversion::spec_is_inexact_number(old(agent).heap, self),
            old(agent).heap.strings@.len() < u32::MAX,
            old(agent).heap.errors@.len() < u32::MAX,
        ensures
            r is Err <==> (self.spec_is_bigint() || self matches Value::Symbol(_)
                || self.spec_is_object()),
            r matches Ok(n) ==> {
                let w = crate::type_conversion::spec_to_uint32(old(agent).heap, self);
                n == if w >= 0x80000000 {
                    w - 0x100000000
                } else {
                    w as int
                }
            },
    {
        let w = crate::type_conversion::to_uint32(agent, self)?;
        if w >= 0x80000000 {
            Ok(((w - 0x80000000) as i32) - 0x40000000 - 0x40000000)
        } else {
            Ok(w as i32)
        }
    }

    /// ToUint16: the unsigned reading modulo `2^16`.
    pub fn to_uint16(self, agent: &mut Agent) -> (r: Result<u16, JsError>)
        requires
            (self matches Value::String(h) ==> old(agent).heap.strings.valid(h)),
            (self matches Value::Number(h) ==> old(agent).heap.numbers.valid(h)),
            !crate::type_conversion::spec_is_inexact_number(old(agent).heap, self),
            old(agent).heap.strings@.len() < u32::MAX,
            old(agent).heap.errors@.len() < u32::MAX,
        ensures
            r is Err <==> (self.spec_is_bigint() || self matches Value::Symbol(_)
                || self.spec_is_object()),
            r matches Ok(n) ==> n == crate::type_conversion::spec_to_uint32(
                old(agent).heap,
                self,
            ) % 0x10000,
    {
        let w = crate::type_conversion::to_uint32(agent, self)?;
        Ok((w % 0x10000) as u16)
    }

    /// ToInt16: the 16-bit reading, reinterpreted as two's complement.
    pub fn to_int16(self, agent: &mut Agent) -> (r: Result<i16, JsError>)
        requires
            (self matches Value::String(h) ==> old(agent).heap.strings.valid(h)),
            (self matches Value::Number(h) ==> old(agent).heap.numbers.valid(h)),
            !crate::type_conversion::spec_is_inexact_number(old(agent).heap, self),
            old(agent).heap.strings@.len() < u32::MAX,
            old(agent).heap.errors@.len() < u32::MAX,
        ensures
            r is Err <==> (self.spec_is_bigint() || self matches Value::Symbol(_)
                || self.spec_is_object()),
            r matches Ok(n) ==> {
                let w = crate::type_conversion::spec_to_uint32(old(agent).heap, self) % 0x10000;
                n == if w >= 0x8000 {
                    w - 0x10000
                } else {
                    w as int
                }
            },
    {
        let w = crate::type_conversion::to_uint32(agent, self)?;
        let m = w % 0x10000;
        if m >= 0x8000 {
            Ok(((m - 0x8000) as i16) - 0x4000 - 0x4000)
        } else {
            Ok(m as i16)
        }
    }
}

/// The content bytes of a string value, under a given heap.
pub open spec fn spec_value_string_bytes(heap: crate::heap::Heap, v: Value) -> Seq<u8> {
    match v {
        Value::SmallString(s) => s@,
        Value::String(h) => if heap.strings.valid(h) {
            heap.strings.spec_get(h).bytes@
        } else {
            Seq::empty()
        },
        _ => Seq::empty(),
    }
}

/// Does the value read as positive (or unsigned) zero?
pub open spec fn spec_value_is_pos_zero(heap: crate::heap::Heap, v: Value) -> bool {
    match v {
        Value::Integer(i) => i.value() == 0,
        Value::SmallF64(f) => f.spec_is_pos_zero(),
        Value::Number(h) => heap.numbers.spec_get(h).bits == 0,
        Value::SmallBigInt(b) => b.value() == 0,
        Value::BigInt(h) => heap.bigints.spec_get(h).data == 0,
        _ => false,
    }
}

/// Does the value read as the negative-zero double?
pub open spec fn spec_value_is_neg_zero(heap: crate::heap::Heap, v: Value) -> bool {
    match v {
        Value::SmallF64(f) => f.spec_is_neg_zero(),
        Value::Number(h) => heap.numbers.spec_get(h).bits == crate::number::F64_NEG_ZERO_BITS,
        _ => false,
    }
}

/// Does the value read as the positive-infinity double?
pub open spec fn spec_value_is_pos_infinity(heap: crate::heap::Heap, v: Value) -> bool {
    match v {
        Value::SmallF64(f) => f.spec_is_pos_infinity(),
        Value::Number(h) => heap.numbers.spec_get(h).bits == crate::number::F64_POS_INFINITY_BITS,
        _ => false,
    }
}

/// Does the value read as the negative-infinity double?
pub open spec fn spec_value_is_neg_infinity(heap: crate::heap::Heap, v: Value) -> bool {
    match v {
        Value::SmallF64(f) => f.spec_is_neg_infinity(),
        Value::Number(h) => heap.numbers.spec_get(h).bits == crate::number::F64_NEG_INFINITY_BITS,
        _ => false,
    }
}

/// Does the value read as a NaN double?
pub open spec fn spec_value_is_nan(heap: crate::heap::Heap, v: Value) -> bool {
    match v {
        Value::SmallF64(f) => f.spec_is_nan(),
        Value::Number(h) => crate::number::spec_f64_bits_nan(heap.numbers.spec_get(h).bits),
        _ => false,
    }
}

} // verus!
