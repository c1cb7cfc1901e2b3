//! Arenas and heap kinds: the allocate/get round trip, arrays, sets, and the
//! intrinsic prototypes.

use nova_vm::agent::Agent;
use nova_vm::array_operations::{array_create, array_set_length};
use nova_vm::bigint_prototype::{this_big_int_value, BigIntPrototype};
use nova_vm::error::{ErrorHeapData, ExceptionType};
use nova_vm::function::ArgumentsList;
use nova_vm::number::NumberHeapData;
use nova_vm::object::{Object, PropertyDescriptor, PropertyKey};
use nova_vm::small_bigint::SmallBigInt;
use nova_vm::small_integer::SmallInteger;
use nova_vm::small_string::SmallString;
use nova_vm::string::{JsString, StringHeapData};
use nova_vm::symbol_prototype::{this_symbol_value, SymbolPrototype};
use nova_vm::value::Value;

#[test]
fn allocate_then_get_returns_the_inserted_record() {
    let mut agent = Agent::new();
    let s = agent.heap.strings.create(StringHeapData {
        bytes: b"payload".to_vec(),
    });
    assert_eq!(agent.heap.strings.get(s).bytes, b"payload".to_vec());
    let n = agent.heap.numbers.create(NumberHeapData {
        bits: 0x3FF0000000000000,
    });
    assert_eq!(agent.heap.numbers.get(n).bits, 0x3FF0000000000000);
    let b = agent
        .heap
        .bigints
        .create(nova_vm::bigint::BigIntHeapData {
            data: 170141183460469231731687303715884105727,
        });
    assert_eq!(
        agent.heap.bigints.get(b).data,
        170141183460469231731687303715884105727
    );
    let e = agent.heap.errors.create(ErrorHeapData::new(
        ExceptionType::RangeError,
        None,
        Some(Value::Null),
    ));
    let record = agent.heap.errors.get(e);
    assert!(matches!(record.kind, ExceptionType::RangeError));
    assert_eq!(record.cause, Some(Value::Null));
    // Handles are 1-based with slot zero reserved, so the first handle of an
    // arena reads back slot zero.
    assert_eq!(s.into_index(), 0);
    assert_eq!(s.into_u32(), 1);
}

#[test]
fn array_create_sets_length_and_capacity() {
    let mut agent = Agent::new();
    let a = array_create(&mut agent, 3, 5, None).unwrap();
    let record = agent.heap.arrays.get(a.0);
    assert_eq!(record.elements.len, 3);
    assert!(record.elements.len_writable);
    assert_eq!(record.elements.values.len(), 5);
    assert!(record.elements.values.iter().all(|slot| slot.is_none()));
    assert!(record.object_index.is_none());
}

#[test]
fn array_create_rejects_over_length() {
    let mut agent = Agent::new();
    let r = array_create(&mut agent, 4294967296, 0, None);
    let err = r.unwrap_err();
    match err.value() {
        Value::Error(e) => {
            assert!(matches!(
                agent.heap.errors.get(e).kind,
                ExceptionType::RangeError
            ));
        }
        _ => panic!("expected an error value"),
    }
}

#[test]
fn array_create_with_custom_prototype_allocates_backing_object() {
    let mut agent = Agent::new();
    let proto = Object::Object(agent.realm.intrinsics.object_prototype);
    let a = array_create(&mut agent, 0, 0, Some(proto)).unwrap();
    let record = agent.heap.arrays.get(a.0);
    let backing = record.object_index.expect("a non-default prototype needs a backing object");
    assert_eq!(agent.heap.objects.get(backing).prototype, Some(proto));
    // The default array prototype allocates none.
    let default_proto = Object::Object(agent.realm.intrinsics.array_prototype);
    let b = array_create(&mut agent, 0, 0, Some(default_proto)).unwrap();
    assert!(agent.heap.arrays.get(b.0).object_index.is_none());
}

#[test]
fn array_set_length_grows_and_shrinks() {
    let mut agent = Agent::new();
    let a = array_create(&mut agent, 2, 2, None).unwrap();
    // Grow.
    let grow = PropertyDescriptor {
        value: Some(Value::Integer(SmallInteger::from_i64(4))),
        ..Default::default()
    };
    assert_eq!(array_set_length(&mut agent, a, grow).unwrap(), true);
    assert_eq!(agent.heap.arrays.get(a.0).elements.len, 4);
    // Shrink clears the removed slots.
    let shrink = PropertyDescriptor {
        value: Some(Value::Integer(SmallInteger::from_i64(1))),
        ..Default::default()
    };
    assert_eq!(array_set_length(&mut agent, a, shrink).unwrap(), true);
    let record = agent.heap.arrays.get(a.0);
    assert_eq!(record.elements.len, 1);
    assert!(record.elements.values[1..].iter().all(|s| s.is_none()));
}

#[test]
fn array_set_length_honours_writability_and_attributes() {
    let mut agent = Agent::new();
    let a = array_create(&mut agent, 2, 2, None).unwrap();
    // Freeze the length.
    let freeze = PropertyDescriptor {
        writable: Some(false),
        ..Default::default()
    };
    assert_eq!(array_set_length(&mut agent, a, freeze).unwrap(), true);
    let set = PropertyDescriptor {
        value: Some(Value::Integer(SmallInteger::from_i64(5))),
        ..Default::default()
    };
    assert_eq!(array_set_length(&mut agent, a, set).unwrap(), false);
    assert_eq!(agent.heap.arrays.get(a.0).elements.len, 2);
}

#[test]
fn array_set_length_rejects_inexact_lengths() {
    let mut agent = Agent::new();
    let a = array_create(&mut agent, 0, 0, None).unwrap();
    let negative = PropertyDescriptor {
        value: Some(Value::Integer(SmallInteger::from_i64(-1))),
        ..Default::default()
    };
    assert!(array_set_length(&mut agent, a, negative).is_err());
    let nan = PropertyDescriptor {
        value: Some(Value::nan()),
        ..Default::default()
    };
    assert!(array_set_length(&mut agent, a, nan).is_err());
}

#[test]
fn set_backing_object_lifecycle() {
    let mut agent = Agent::new();
    let set = nova_vm::set_object::SetObject(
        agent
            .heap
            .sets
            .create(nova_vm::set_object::SetHeapData::new()),
    );
    assert!(set.get_backing_object(&agent).is_none());
    let backing = set.create_backing_object(&mut agent);
    assert_eq!(set.get_backing_object(&agent), Some(backing));
    assert_eq!(
        agent.heap.objects.get(backing).prototype,
        Some(Object::Object(agent.realm.intrinsics.set_prototype))
    );
    set.add(&mut agent, Value::Boolean(true));
    set.add(&mut agent, Value::Null);
    let record = agent.heap.sets.get(set.0);
    assert_eq!(record.elements.len(), 2);
    assert_eq!(record.elements[0], Value::Boolean(true));
}

#[test]
fn symbol_prototype_intrinsic_allocates_well_known_symbols() {
    let mut agent = Agent::new();
    let before = agent.heap.symbols.len();
    SymbolPrototype::create_intrinsic(&mut agent);
    assert_eq!(agent.heap.symbols.len(), before + 13);
    // The prototype object now answers `valueOf`.
    let proto = agent.realm.intrinsics.symbol_prototype;
    let key = PropertyKey::SmallString(SmallString::from_bytes(b"valueOf"));
    let entry = agent.heap.objects.get(proto).get(key);
    assert!(matches!(entry, Some(Value::BuiltinFunction(_))));
}

#[test]
fn symbol_prototype_behaviours() {
    let mut agent = Agent::new();
    let sym = agent.heap.symbols.create(nova_vm::symbol::SymbolHeapData {
        descriptor: Some(JsString::Small(SmallString::from_bytes(b"mark"))),
    });
    let args = ArgumentsList::new();
    let described =
        SymbolPrototype::get_description(&mut agent, Value::Symbol(sym), &args).unwrap();
    assert!(matches!(described, Value::SmallString(_)));
    let shown = SymbolPrototype::to_string(&mut agent, Value::Symbol(sym), &args).unwrap();
    match shown {
        Value::String(h) => {
            assert_eq!(agent.heap.strings.get(h).bytes, b"Symbol(mark)".to_vec())
        }
        Value::SmallString(s) => assert_eq!(s.to_vec(), b"Symbol(mark)".to_vec()),
        _ => panic!("expected a string"),
    }
    let same = SymbolPrototype::value_of(&mut agent, Value::Symbol(sym), &args).unwrap();
    assert_eq!(same, Value::Symbol(sym));
    assert!(SymbolPrototype::value_of(&mut agent, Value::Null, &args).is_err());
    assert!(this_symbol_value(&mut agent, Value::Boolean(true)).is_err());
}

#[test]
fn bigint_prototype_behaviours() {
    let mut agent = Agent::new();
    BigIntPrototype::create_intrinsic(&mut agent);
    let args = ArgumentsList::new();
    let small = Value::SmallBigInt(SmallBigInt::from_i64(123));
    let shown = BigIntPrototype::to_string(&mut agent, small, &args).unwrap();
    match shown {
        Value::SmallString(s) => assert_eq!(s.to_vec(), b"123".to_vec()),
        _ => panic!("expected an inline string"),
    }
    let negative = Value::SmallBigInt(SmallBigInt::from_i64(-45));
    let shown = BigIntPrototype::to_locale_string(&mut agent, negative, &args).unwrap();
    match shown {
        Value::SmallString(s) => assert_eq!(s.to_vec(), b"-45".to_vec()),
        _ => panic!("expected an inline string"),
    }
    let wide = agent
        .heap
        .bigints
        .create(nova_vm::bigint::BigIntHeapData {
            data: 123456789012345678901234567890,
        });
    let shown = BigIntPrototype::to_string(&mut agent, Value::BigInt(wide), &args).unwrap();
    match shown {
        Value::String(h) => assert_eq!(
            agent.heap.strings.get(h).bytes,
            b"123456789012345678901234567890".to_vec()
        ),
        _ => panic!("expected a heap string"),
    }
    assert_eq!(
        BigIntPrototype::value_of(&mut agent, small, &args).unwrap(),
        small
    );
    assert!(BigIntPrototype::value_of(&mut agent, Value::Undefined, &args).is_err());
    assert!(this_big_int_value(&mut agent, Value::Boolean(false)).is_err());
}

#[test]
fn date_and_regexp_records() {
    let mut agent = Agent::new();
    let d = agent
        .heap
        .dates
        .create(nova_vm::date::DateHeapData::new_invalid());
    assert!(agent.heap.dates.get(d).date.is_none());
    let r = agent
        .heap
        .regexps
        .create(nova_vm::regexp::RegExpHeapData::default());
    let record = agent.heap.regexps.get(r);
    assert!(record.object_index.is_none());
    match record.original_source {
        JsString::Small(s) => assert!(s.is_empty()),
        _ => panic!("the default pattern is empty"),
    }
}
