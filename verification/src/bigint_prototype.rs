//! The `BigInt.prototype` intrinsic and its native behaviours.

use vstd::prelude::*;

verus! {

use crate::agent::{Agent, spec_string_bytes};
use crate::bigint::BigInt;
use crate::error::{ExceptionType, JsError};
use crate::function::{ArgumentsList, BuiltinBehaviour};
use crate::object::{ObjectEntry, PropertyKey};
use crate::string::JsString;
use crate::string_conversion::spec_decimal_bytes;
use crate::symbol_prototype::make_builtin;
use crate::value::Value;

/// The big-integer this call's receiver denotes; anything else is a
/// `TypeError`.
pub fn this_big_int_value(agent: &mut Agent, value: Value) -> (r: Result<BigInt, JsError>)
    requires
        old(agent).heap.strings@.len() < u32::MAX,
        old(agent).heap.errors@.len() < u32::MAX,
    ensures
        match value {
            Value::BigInt(h) => r == Ok::<BigInt, JsError>(BigInt::BigInt(h)),
            Value::SmallBigInt(b) => r == Ok::<BigInt, JsError>(BigInt::SmallBigInt(b)),
            _ => r is Err,
        },
        r is Ok ==> *final(agent) == *old(agent),
{
    match value {
        Value::BigInt(idx) => Ok(BigInt::BigInt(idx)),
        Value::SmallBigInt(data) => Ok(BigInt::SmallBigInt(data)),
        _ => Err(agent.throw_exception(ExceptionType::TypeError, "Not a BigInt")),
    }
}

/// The native behaviours of `BigInt.prototype`.
pub struct BigIntPrototype;

impl BigIntPrototype {
    /// `toLocaleString`: spelled like `toString`; locale handling is a
    /// collaborator's concern.
    pub fn to_locale_string(agent: &mut Agent, this_value: Value, arguments: &ArgumentsList) -> (r:
        Result<Value, JsError>)
        requires
            (this_value matches Value::BigInt(h) ==> old(agent).heap.bigints.valid(h)),
            (arguments.values@.len() > 0 ==> arguments.values@[0] == Value::Undefined || (
            arguments.values@[0] matches Value::Integer(i) && i.value() == 10)),
            old(agent).heap.strings@.len() < u32::MAX,
            old(agent).heap.errors@.len() < u32::MAX,
        ensures
            r is Err <==> !this_value.spec_is_bigint(),
            r matches Ok(v) ==> v.spec_is_string() && crate::value::spec_value_string_bytes(
                final(agent).heap,
                v,
            ) == spec_decimal_bytes(spec_bigint_value(old(agent).heap, this_value)),
    {
        Self::to_string(agent, this_value, arguments)
    }

    /// `toString`: the receiver big-integer spelled in decimal. Radix
    /// arguments other than the default ten are outside this core.
    pub fn to_string(agent: &mut Agent, this_value: Value, arguments: &ArgumentsList) -> (r:
        Result<Value, JsError>)
        requires
            (this_value matches Value::BigInt(h) ==> old(agent).heap.bigints.valid(h)),
            (arguments.values@.len() > 0 ==> arguments.values@[0] == Value::Undefined || (
            arguments.values@[0] matches Value::Integer(i) && i.value() == 10)),
            old(agent).heap.strings@.len() < u32::MAX,
            old(agent).heap.errors@.len() < u32::MAX,
        ensures
            r is Err <==> !this_value.spec_is_bigint(),
            r matches Ok(v) ==> v.spec_is_string() && crate::value::spec_value_string_bytes(
                final(agent).heap,
                v,
            ) == spec_decimal_bytes(spec_bigint_value(old(agent).heap, this_value)),
    {
        let x = match this_big_int_value(agent, this_value) {
            Ok(x) => x,
            Err(e) => {
                return Err(e);
            },
        };
        let _radix = arguments.get(0);
        let bytes = match x {
            BigInt::SmallBigInt(b) => crate::string_conversion::decimal_bytes_of_i64(b.into_i64()),
            BigInt::BigInt(h) => {
                let data = agent.heap.bigints.get(h).data;
                crate::string_conversion::decimal_bytes_of_i128(data)
            },
        };
        let s = agent.alloc_string_from_bytes(bytes);
        match s {
            JsString::Small(small) => Ok(Value::SmallString(small)),
            JsString::Heap(h) => Ok(Value::String(h)),
        }
    }

    /// `valueOf`: the receiver's big-integer value.
    pub fn value_of(agent: &mut Agent, this_value: Value, _arguments: &ArgumentsList) -> (r:
        Result<Value, JsError>)
        requires
            old(agent).heap.strings@.len() < u32::MAX,
            old(agent).heap.errors@.len() < u32::MAX,
        ensures
            r is Err <==> !this_value.spec_is_bigint(),
            this_value.spec_is_bigint() ==> r == Ok::<Value, JsError>(this_value),
    {
        match this_big_int_value(agent, this_value) {
            Ok(BigInt::BigInt(h)) => Ok(Value::BigInt(h)),
            Ok(BigInt::SmallBigInt(b)) => Ok(Value::SmallBigInt(b)),
            Err(e) => Err(e),
        }
    }

    /// Populate the realm's `BigInt.prototype`: install its methods and its
    /// tag property.
    pub fn create_intrinsic(agent: &mut Agent)
        requires
            old(agent).heap.objects.valid(old(agent).realm.intrinsics.bigint_prototype),
            old(agent).heap.objects.spec_get(
                old(agent).realm.intrinsics.bigint_prototype,
            ).keys_unique(),
            old(agent).heap.strings@.len() + 16 < u32::MAX,
            old(agent).heap.builtin_functions@.len() + 8 < u32::MAX,
        ensures
            final(agent).heap.objects.valid(old(agent).realm.intrinsics.bigint_prototype),
            final(agent).heap.objects.spec_get(
                old(agent).realm.intrinsics.bigint_prototype,
            ).keys_unique(),
    {
        proof {
            reveal_strlit("toLocaleString");
            reveal_strlit("toString");
            reveal_strlit("valueOf");
            reveal_strlit("BigInt");
        }
        let to_locale_string_fn = make_builtin(
            agent,
            "toLocaleString",
            0,
            BuiltinBehaviour::BigIntPrototypeToLocaleString,
        );
        let to_string_fn = make_builtin(
            agent,
            "toString",
            0,
            BuiltinBehaviour::BigIntPrototypeToString,
        );
        let value_of_fn = make_builtin(agent, "valueOf", 0, BuiltinBehaviour::BigIntPrototypeValueOf);
        let to_locale_key = PropertyKey::from_js_string(
            agent.alloc_string_from_bytes(crate::agent::str_to_bytes("toLocaleString")),
        );
        let to_string_key = PropertyKey::from_js_string(
            agent.alloc_string_from_bytes(crate::agent::str_to_bytes("toString")),
        );
        let value_of_key = PropertyKey::from_js_string(
            agent.alloc_string_from_bytes(crate::agent::str_to_bytes("valueOf")),
        );
        let this = agent.realm.intrinsics.bigint_prototype;
        let record = agent.heap.objects.get_mut(this);
        record.set_entry(
            ObjectEntry::new(to_locale_key, Value::BuiltinFunction(to_locale_string_fn)),
        );
        record.set_entry(ObjectEntry::new(to_string_key, Value::BuiltinFunction(to_string_fn)));
        record.set_entry(ObjectEntry::new(value_of_key, Value::BuiltinFunction(value_of_fn)));
    }
}

/// The integer a big-integer value denotes.
pub open spec fn spec_bigint_value(heap: crate::heap::Heap, v: Value) -> int {
    match v {
        Value::SmallBigInt(b) => b.value(),
        Value::BigInt(h) => heap.bigints.spec_get(h).data as int,
        _ => 0,
    }
}

} // verus!
