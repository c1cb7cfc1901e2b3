//! The `Symbol.prototype` intrinsic and its native behaviours.

use vstd::prelude::*;

verus! {

use vstd::string::StringSliceAdditionalSpecFns;

use crate::agent::Agent;
use crate::error::{ExceptionType, JsError};
use crate::function::{ArgumentsList, BuiltinBehaviour, BuiltinFunction, BuiltinFunctionHeapData};
use crate::heap::Heap;
use crate::object::{ObjectEntry, PropertyKey, PropertyKeyId, spec_entry_lookup};
use crate::primitive_object::PrimitiveObjectData;
use crate::string::JsString;
use crate::string_conversion::descriptive_string;
use crate::symbol::{Symbol, SymbolHeapData};
use crate::value::Value;

/// Slot offset of the well-known `Symbol.toPrimitive` among the symbols the
/// bootstrap allocates.
pub const WELL_KNOWN_TO_PRIMITIVE: usize = 10;

/// Slot offset of the well-known `Symbol.toStringTag`.
pub const WELL_KNOWN_TO_STRING_TAG: usize = 11;

/// The symbol this call's receiver denotes: a symbol value itself, or a
/// primitive wrapper holding one; anything else is a `TypeError`.
pub fn this_symbol_value(agent: &mut Agent, value: Value) -> (r: Result<Symbol, JsError>)
    requires
        (value matches Value::PrimitiveObject(p) ==> old(agent).heap.primitive_objects.valid(p)),
        old(agent).heap.strings@.len() < u32::MAX,
        old(agent).heap.errors@.len() < u32::MAX,
    ensures
        match value {
            Value::Symbol(s) => r == Ok::<Symbol, JsError>(s),
            Value::PrimitiveObject(p) => {
                match old(agent).heap.primitive_objects.spec_get(p).data {
                    PrimitiveObjectData::Symbol(s) => r == Ok::<Symbol, JsError>(s),
                    _ => r is Err,
                }
            },
            _ => r is Err,
        },
        final(agent).heap.symbols == old(agent).heap.symbols,
        r is Ok ==> *final(agent) == *old(agent),
{
    match value {
        Value::Symbol(symbol) => Ok(symbol),
        Value::PrimitiveObject(p) => {
            let record = agent.heap.primitive_objects.get(p);
            match record.data {
                PrimitiveObjectData::Symbol(s) => Ok(s),
                _ => Err(agent.throw_exception(ExceptionType::TypeError, "this is not a symbol")),
            }
        },
        _ => Err(agent.throw_exception(ExceptionType::TypeError, "this is not a symbol")),
    }
}

/// Allocate one well-known symbol with the given descriptive text.
fn alloc_well_known(agent: &mut Agent, text: &str) -> (r: Symbol)
    requires
        vstd::utf8::is_ascii_chars(text@),
        old(agent).heap.strings@.len() < u32::MAX,
        old(agent).heap.symbols@.len() < u32::MAX,
    ensures
        r.index() == old(agent).heap.symbols@.len(),
        final(agent).heap.symbols@.len() == old(agent).heap.symbols@.len() + 1,
        final(agent).heap.symbols.valid(r),
        spec_symbol_descriptor_bytes(*final(agent), r.index() as int) == text@.map_values(
            |c: char| c as u8,
        ),
        final(agent).heap == (Heap {
            symbols: final(agent).heap.symbols,
            strings: final(agent).heap.strings,
            ..old(agent).heap
        }),
        final(agent).heap.strings@.len() <= old(agent).heap.strings@.len() + 1,
        crate::agent::spec_strings_preserved(old(agent).heap, final(agent).heap),
        final(agent).realm == old(agent).realm,
        forall|i: int|
            0 <= i < old(agent).heap.symbols@.len() ==> final(agent).heap.symbols@[i] == old(agent).heap.symbols@[i],
{
    let bytes = crate::agent::str_to_bytes(text);
    proof {
        vstd::utf8::is_ascii_chars_encode_utf8(text@);
        assert(bytes@ =~= text@.map_values(|c: char| c as u8));
    }
    let descriptor = agent.alloc_string_from_bytes(bytes);
    agent.heap.symbols.create(SymbolHeapData { descriptor: Some(descriptor) })
}

/// The descriptive bytes of the symbol in a given arena slot.
pub open spec fn spec_symbol_descriptor_bytes(agent: Agent, idx: int) -> Seq<u8> {
    if 0 <= idx < agent.heap.symbols@.len() && agent.heap.symbols@[idx] is Some {
        match agent.heap.symbols@[idx]->Some_0.descriptor {
            Some(d) => crate::agent::spec_string_bytes(agent.heap, d),
            None => Seq::empty(),
        }
    } else {
        Seq::empty()
    }
}

/// Allocate one built-in function record.
pub(crate) fn make_builtin(agent: &mut Agent, name: &str, length: u8, behaviour: BuiltinBehaviour) -> (r:
    BuiltinFunction)
    requires
        vstd::utf8::is_ascii_chars(name@),
        old(agent).heap.strings@.len() < u32::MAX,
        old(agent).heap.builtin_functions@.len() < u32::MAX,
    ensures
        final(agent).heap.builtin_functions.valid(r),
        final(agent).heap.builtin_functions.spec_get(r).behaviour == behaviour,
        final(agent).heap.builtin_functions.spec_get(r).length == length,
        final(agent).heap == (Heap {
            builtin_functions: final(agent).heap.builtin_functions,
            strings: final(agent).heap.strings,
            ..old(agent).heap
        }),
        final(agent).heap.builtin_functions@.len() == old(agent).heap.builtin_functions@.len() + 1,
        forall|i: int|
            0 <= i < old(agent).heap.builtin_functions@.len() ==> final(agent).heap.builtin_functions@[i] == old(agent).heap.builtin_functions@[i],
        final(agent).heap.strings@.len() <= old(agent).heap.strings@.len() + 1,
        crate::agent::spec_strings_preserved(old(agent).heap, final(agent).heap),
        final(agent).heap.symbols == old(agent).heap.symbols,
        final(agent).realm == old(agent).realm,
{
    let bytes = crate::agent::str_to_bytes(name);
    let name_string = agent.alloc_string_from_bytes(bytes);
    agent.heap.builtin_functions.create(
        BuiltinFunctionHeapData { object_index: None, name: Some(name_string), length, behaviour },
    )
}

/// The native behaviours of `Symbol.prototype`.
pub struct SymbolPrototype;

impl SymbolPrototype {
    /// The `description` accessor: the receiver symbol's description, or
    /// `undefined` when it was made without one.
    pub fn get_description(agent: &mut Agent, this_value: Value, _arguments: &ArgumentsList) -> (r:
        Result<Value, JsError>)
        requires
            (this_value matches Value::PrimitiveObject(p) ==> old(agent).heap.primitive_objects.valid(p)),
            (this_value matches Value::Symbol(s) ==> old(agent).heap.symbols.valid(s)),
            old(agent).heap.strings@.len() < u32::MAX,
            old(agent).heap.errors@.len() < u32::MAX,
        ensures
            this_value matches Value::Symbol(s) ==> (match old(agent).heap.symbols.spec_get(
                s,
            ).descriptor {
                Some(JsString::Small(small)) => r == Ok::<Value, JsError>(
                    Value::SmallString(small),
                ),
                Some(JsString::Heap(h)) => r == Ok::<Value, JsError>(Value::String(h)),
                None => r == Ok::<Value, JsError>(Value::Undefined),
            }),
            !(this_value matches Value::Symbol(_) || this_value matches Value::PrimitiveObject(_))
                ==> r is Err,
    {
        let symbol = match this_symbol_value(agent, this_value) {
            Ok(s) => s,
            Err(e) => {
                return Err(e);
            },
        };
        if !agent.heap.symbols.has(symbol) {
            return Err(agent.throw_exception(ExceptionType::TypeError, "this is not a symbol"));
        }
        let record = agent.heap.symbols.get(symbol);
        match record.descriptor {
            Some(JsString::Small(small)) => Ok(Value::SmallString(small)),
            Some(JsString::Heap(h)) => Ok(Value::String(h)),
            None => Ok(Value::Undefined),
        }
    }

    /// `toString`: the receiver symbol's descriptive string,
    /// `Symbol(description)`.
    pub fn to_string(agent: &mut Agent, this_value: Value, _arguments: &ArgumentsList) -> (r:
        Result<Value, JsError>)
        requires
            (this_value matches Value::PrimitiveObject(p) ==> old(agent).heap.primitive_objects.valid(p)),
            (this_value matches Value::Symbol(s) ==> old(agent).heap.symbols.valid(s) && (
            match old(agent).heap.symbols.spec_get(s).descriptor {
                Some(JsString::Heap(h)) => old(agent).heap.strings.valid(h),
                _ => true,
            })),
            old(agent).heap.strings@.len() < u32::MAX,
            old(agent).heap.errors@.len() < u32::MAX,
        ensures
            // A symbol receiver answers its descriptive string:
            // `Symbol(description)`.
            this_value matches Value::Symbol(s) ==> (r matches Ok(v) && v.spec_is_string()
                && crate::value::spec_value_string_bytes(final(agent).heap, v)
                == crate::string_conversion::spec_descriptive_bytes(old(agent).heap, s)),
            !(this_value matches Value::Symbol(_) || this_value matches Value::PrimitiveObject(_))
                ==> r is Err,
    {
        let symbol = match this_symbol_value(agent, this_value) {
            Ok(s) => s,
            Err(e) => {
                return Err(e);
            },
        };
        if !agent.heap.symbols.has(symbol) {
            return Err(agent.throw_exception(ExceptionType::TypeError, "this is not a symbol"));
        }
        let valid_slot = match agent.heap.symbols.get(symbol).descriptor {
            Some(JsString::Heap(h)) => agent.heap.strings.has(h),
            _ => true,
        };
        if !valid_slot {
            return Err(agent.throw_exception(ExceptionType::TypeError, "this is not a symbol"));
        }
        let s = descriptive_string(agent, symbol);
        match s {
            JsString::Small(small) => Ok(Value::SmallString(small)),
            JsString::Heap(h) => Ok(Value::String(h)),
        }
    }

    /// `valueOf` (and the `toPrimitive` behaviour): the receiver's symbol
    /// value.
    pub fn value_of(agent: &mut Agent, this_value: Value, _arguments: &ArgumentsList) -> (r:
        Result<Value, JsError>)
        requires
            (this_value matches Value::PrimitiveObject(p) ==> old(agent).heap.primitive_objects.valid(p)),
            old(agent).heap.strings@.len() < u32::MAX,
            old(agent).heap.errors@.len() < u32::MAX,
        ensures
            this_value matches Value::Symbol(s) ==> r == Ok::<Value, JsError>(Value::Symbol(s)),
            !(this_value matches Value::Symbol(_) || this_value matches Value::PrimitiveObject(_))
                ==> r is Err,
    {
        match this_symbol_value(agent, this_value) {
            Ok(s) => Ok(Value::Symbol(s)),
            Err(e) => Err(e),
        }
    }

    /// Populate the realm's `Symbol.prototype`: allocate the thirteen
    /// well-known symbols in a fixed order, then install the prototype's
    /// methods and its tag property.
    pub fn create_intrinsic(agent: &mut Agent)
        requires
            old(agent).heap.objects.valid(old(agent).realm.intrinsics.symbol_prototype),
            old(agent).heap.objects.spec_get(
                old(agent).realm.intrinsics.symbol_prototype,
            ).keys_unique(),
            old(agent).heap.symbols@.len() + 16 < u32::MAX,
            old(agent).heap.strings@.len() + 32 < u32::MAX,
            old(agent).heap.builtin_functions@.len() + 8 < u32::MAX,
        ensures
            final(agent).heap.symbols@.len() == old(agent).heap.symbols@.len() + 13,
            spec_symbol_descriptor_bytes(
                *final(agent),
                old(agent).heap.symbols@.len() + WELL_KNOWN_TO_PRIMITIVE,
            ) == "Symbol.toPrimitive"@.map_values(|c: char| c as u8),
            spec_symbol_descriptor_bytes(
                *final(agent),
                old(agent).heap.symbols@.len() + WELL_KNOWN_TO_STRING_TAG,
            ) == "Symbol.toStringTag"@.map_values(|c: char| c as u8),
            final(agent).heap.objects.valid(old(agent).realm.intrinsics.symbol_prototype),
            final(agent).heap.objects.spec_get(
                old(agent).realm.intrinsics.symbol_prototype,
            ).keys_unique(),
            spec_entry_lookup(
                final(agent).heap.objects.spec_get(
                    old(agent).realm.intrinsics.symbol_prototype,
                ).entries@,
                PropertyKeyId::SmallStr("valueOf"@.map_values(|c: char| c as u8)),
            ) matches Some(e) && e.value matches Value::BuiltinFunction(f) && final(agent).heap.builtin_functions.valid(f) && final(agent).heap.builtin_functions.spec_get(
                f,
            ).behaviour == BuiltinBehaviour::SymbolPrototypeValueOf,
    {
        proof {
            reveal_strlit("Symbol.asyncIterator");
            reveal_strlit("Symbol.hasInstance");
            reveal_strlit("Symbol.isConcatSpreadable");
            reveal_strlit("Symbol.iterator");
            reveal_strlit("Symbol.match");
            reveal_strlit("Symbol.matchAll");
            reveal_strlit("Symbol.replace");
            reveal_strlit("Symbol.search");
            reveal_strlit("Symbol.species");
            reveal_strlit("Symbol.split");
            reveal_strlit("Symbol.toPrimitive");
            reveal_strlit("Symbol.toStringTag");
            reveal_strlit("Symbol.unscopables");
            reveal_strlit("description");
            reveal_strlit("toString");
            reveal_strlit("toPrimitive");
            reveal_strlit("valueOf");
            reveal_strlit("Symbol");
        }
        alloc_well_known(agent, "Symbol.asyncIterator");
        alloc_well_known(agent, "Symbol.hasInstance");
        alloc_well_known(agent, "Symbol.isConcatSpreadable");
        alloc_well_known(agent, "Symbol.iterator");
        alloc_well_known(agent, "Symbol.match");
        alloc_well_known(agent, "Symbol.matchAll");
        alloc_well_known(agent, "Symbol.replace");
        alloc_well_known(agent, "Symbol.search");
        alloc_well_known(agent, "Symbol.species");
        alloc_well_known(agent, "Symbol.split");
        let to_primitive = alloc_well_known(agent, "Symbol.toPrimitive");
        let to_string_tag = alloc_well_known(agent, "Symbol.toStringTag");
        alloc_well_known(agent, "Symbol.unscopables");
        let get_description = make_builtin(
            agent,
            "description",
            0,
            BuiltinBehaviour::SymbolPrototypeGetDescription,
        );
        let to_string_fn = make_builtin(
            agent,
            "toString",
            0,
            BuiltinBehaviour::SymbolPrototypeToString,
        );
        let value_of_fn = make_builtin(agent, "valueOf", 0, BuiltinBehaviour::SymbolPrototypeValueOf);
        let to_primitive_fn = make_builtin(
            agent,
            "toPrimitive",
            1,
            BuiltinBehaviour::SymbolPrototypeToPrimitive,
        );
        let description_key = PropertyKey::from_js_string(
            agent.alloc_string_from_bytes(crate::agent::str_to_bytes("description")),
        );
        let to_string_key = PropertyKey::from_js_string(
            agent.alloc_string_from_bytes(crate::agent::str_to_bytes("toString")),
        );
        let vo_bytes = crate::agent::str_to_bytes("valueOf");
        proof {
            vstd::utf8::is_ascii_chars_encode_utf8("valueOf"@);
            assert(vo_bytes@ =~= "valueOf"@.map_values(|c: char| c as u8));
            assert forall|i: int| 0 <= i < vo_bytes@.len() implies vo_bytes@[i] != 0xFF by {
                assert(vo_bytes@[i] == "valueOf"@[i] as u8);
            }
        }
        let value_of_key = PropertyKey::SmallString(
            crate::small_string::SmallString::from_bytes(vo_bytes.as_slice()),
        );
        let tag_value = Value::from_str(agent, "Symbol");
        let this = agent.realm.intrinsics.symbol_prototype;
        let record = agent.heap.objects.get_mut(this);
        record.set_entry(ObjectEntry::new(description_key, Value::BuiltinFunction(get_description)));
        record.set_entry(ObjectEntry::new(to_string_key, Value::BuiltinFunction(to_string_fn)));
        record.set_entry(ObjectEntry::new(value_of_key, Value::BuiltinFunction(value_of_fn)));
        record.set_entry(
            ObjectEntry {
                key: PropertyKey::Symbol(to_primitive),
                value: Value::BuiltinFunction(to_primitive_fn),
                writable: false,
                enumerable: false,
                configurable: true,
            },
        );
        record.set_entry(
            ObjectEntry {
                key: PropertyKey::Symbol(to_string_tag),
                value: tag_value,
                writable: false,
                enumerable: false,
                configurable: true,
            },
        );
    }
}

} // verus!
