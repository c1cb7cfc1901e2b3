//! Values: word-sized layout, classification, conversions, hashing, rooting.

use nova_vm::agent::Agent;
use nova_vm::hash::ValueHasher;
use nova_vm::rootable::{HeapRootData, ValueRootRepr};
use nova_vm::small_bigint::SmallBigInt;
use nova_vm::small_f64::SmallF64;
use nova_vm::small_integer::SmallInteger;
use nova_vm::small_string::SmallString;
use nova_vm::value::Value;

#[test]
fn value_is_one_machine_word() {
    assert_eq!(
        core::mem::size_of::<Value>(),
        core::mem::size_of::<usize>()
    );
}

#[test]
fn optional_value_is_one_machine_word() {
    assert_eq!(
        core::mem::size_of::<Option<Value>>(),
        core::mem::size_of::<usize>()
    );
}

#[test]
fn boolean_predicates() {
    assert!(Value::Boolean(true).is_true());
    assert!(!Value::Boolean(true).is_false());
    assert!(Value::Boolean(false).is_false());
    assert!(Value::Boolean(true).is_boolean());
    assert!(!Value::Undefined.is_boolean());
    assert!(Value::Undefined.is_undefined());
    assert!(Value::Null.is_null());
    assert!(Value::Null.is_primitive());
}

#[test]
fn numeric_predicates() {
    let i = Value::Integer(SmallInteger::from_i64(42));
    assert!(i.is_number());
    assert!(i.is_numeric());
    assert!(i.is_integer());
    let b = Value::SmallBigInt(SmallBigInt::from_i64(-5));
    assert!(b.is_bigint());
    assert!(b.is_numeric());
    assert!(!b.is_number());
}

#[test]
fn special_double_constructors() {
    let agent = Agent::new();
    assert!(Value::nan().is_nan(&agent));
    assert!(Value::pos_inf().is_pos_infinity(&agent));
    assert!(Value::neg_inf().is_neg_infinity(&agent));
    assert!(Value::pos_zero().is_pos_zero(&agent));
    assert!(Value::neg_zero().is_neg_zero(&agent));
    assert!(!Value::pos_zero().is_neg_zero(&agent));
    assert!(!Value::nan().is_pos_infinity(&agent));
}

#[test]
fn small_integer_round_trip() {
    for v in [0i64, 1, -1, 9007199254740991, -9007199254740991, 123456789] {
        assert_eq!(SmallInteger::from_i64(v).into_i64(), v);
    }
}

#[test]
fn small_bigint_round_trip() {
    for v in [0i64, 36028797018963967, -36028797018963968, -77] {
        assert_eq!(SmallBigInt::from_i64(v).into_i64(), v);
    }
}

#[test]
fn small_string_content() {
    let s = SmallString::from_bytes(b"hello");
    assert_eq!(s.len(), 5);
    assert!(!s.is_empty());
    assert_eq!(s.to_vec(), b"hello".to_vec());
    assert!(SmallString::empty().is_empty());
    assert_eq!(SmallString::from_bytes(b"1234567").len(), 7);
}

#[test]
fn from_str_small_and_heap() {
    let mut agent = Agent::new();
    let small = Value::from_str(&mut agent, "short");
    assert!(matches!(small, Value::SmallString(_)));
    assert!(small.is_string());
    let heap = Value::from_str(&mut agent, "a longer text");
    assert!(matches!(heap, Value::String(_)));
    assert!(heap.is_string());
    if let Value::String(h) = heap {
        assert_eq!(agent.heap.strings.get(h).bytes, b"a longer text".to_vec());
    }
    let empty = Value::from_str(&mut agent, "");
    assert!(empty.is_empty_string());
    // The split is by size alone: seven bytes stay inline with no heap
    // allocation, eight go to the heap.
    let strings_before = agent.heap.strings.len();
    assert!(matches!(
        Value::from_str(&mut agent, "exactly"),
        Value::SmallString(_)
    ));
    assert_eq!(agent.heap.strings.len(), strings_before);
    assert!(matches!(
        Value::from_str(&mut agent, "eight ch"),
        Value::String(_)
    ));
    assert_eq!(agent.heap.strings.len(), strings_before + 1);
}

#[test]
fn try_hash_fails_exactly_on_heap_backed_primitives() {
    let mut agent = Agent::new();
    let heap_string = Value::from_str(&mut agent, "a longer text");
    let mut hasher = ValueHasher::new();
    assert!(heap_string.try_hash(&mut hasher).is_err());
    let small = Value::from_str(&mut agent, "short");
    assert!(small.try_hash(&mut hasher).is_ok());
    assert!(Value::Undefined.try_hash(&mut hasher).is_ok());
    assert!(Value::Integer(SmallInteger::from_i64(3))
        .try_hash(&mut hasher)
        .is_ok());
}

#[test]
fn hash_agrees_on_equal_string_content() {
    let mut agent = Agent::new();
    // The same bytes, stored inline and on the heap, hash alike: content
    // decides, not residence.
    let small = Value::from_str(&mut agent, "abc");
    let heap = {
        let h = agent
            .heap
            .strings
            .create(nova_vm::string::StringHeapData { bytes: b"abc".to_vec() });
        Value::String(h)
    };
    let mut h1 = ValueHasher::new();
    small.try_hash(&mut h1).unwrap();
    let mut h2 = ValueHasher::new();
    heap.hash(&agent.heap, &mut h2);
    assert_eq!(h1.state, h2.state);
}

#[test]
fn to_number_exact_cases() {
    let mut agent = Agent::new();
    let n = Value::from_str(&mut agent, "42");
    match nova_vm::type_conversion::to_number(&mut agent, n).unwrap() {
        nova_vm::number::Number::Integer(i) => assert_eq!(i.into_i64(), 42),
        _ => panic!("expected an integer"),
    }
    let empty = Value::from_str(&mut agent, "");
    match nova_vm::type_conversion::to_number(&mut agent, empty).unwrap() {
        nova_vm::number::Number::Integer(i) => assert_eq!(i.into_i64(), 0),
        _ => panic!("expected zero"),
    }
    let gibberish = Value::from_str(&mut agent, "forty two");
    match nova_vm::type_conversion::to_number(&mut agent, gibberish).unwrap() {
        nova_vm::number::Number::SmallF64(f) => assert!(f.is_nan()),
        _ => panic!("expected NaN"),
    }
    assert!(nova_vm::type_conversion::to_number(
        &mut agent,
        Value::SmallBigInt(SmallBigInt::from_i64(1))
    )
    .is_err());
}

#[test]
fn to_uint32_wraps_negatives() {
    let mut agent = Agent::new();
    let v = Value::Integer(SmallInteger::from_i64(-7));
    assert_eq!(v.to_uint32(&mut agent).unwrap(), 4294967289);
    let v = Value::Integer(SmallInteger::from_i64(4294967296 + 5));
    assert_eq!(v.to_uint32(&mut agent).unwrap(), 5);
    assert_eq!(Value::nan().to_uint32(&mut agent).unwrap(), 0);
    assert_eq!(
        Value::Boolean(true).to_int32(&mut agent).unwrap(),
        1
    );
    let v = Value::Integer(SmallInteger::from_i64(0x1_0000 + 3));
    assert_eq!(v.to_uint16(&mut agent).unwrap(), 3);
    let v = Value::Integer(SmallInteger::from_i64(0xFFFF));
    assert_eq!(v.to_int16(&mut agent).unwrap(), -1);
}

#[test]
fn to_string_spells_values() {
    let mut agent = Agent::new();
    let cases: Vec<(Value, &[u8])> = vec![
        (Value::Undefined, b"undefined"),
        (Value::Null, b"null"),
        (Value::Boolean(true), b"true"),
        (Value::Boolean(false), b"false"),
        (Value::Integer(SmallInteger::from_i64(42)), b"42"),
        (Value::Integer(SmallInteger::from_i64(-9)), b"-9"),
        (Value::Integer(SmallInteger::from_i64(0)), b"0"),
        (Value::nan(), b"NaN"),
        (Value::pos_inf(), b"Infinity"),
        (Value::neg_inf(), b"-Infinity"),
    ];
    for (value, expected) in cases {
        let s = value.to_string(&mut agent).unwrap();
        assert_eq!(string_bytes(&agent, s), expected.to_vec());
    }
    assert!(Value::Symbol(sym(&mut agent)).to_string(&mut agent).is_err());
}

fn sym(agent: &mut Agent) -> nova_vm::symbol::Symbol {
    agent
        .heap
        .symbols
        .create(nova_vm::symbol::SymbolHeapData { descriptor: None })
}

fn string_bytes(agent: &Agent, s: nova_vm::string::JsString) -> Vec<u8> {
    match s {
        nova_vm::string::JsString::Small(small) => small.to_vec(),
        nova_vm::string::JsString::Heap(h) => agent.heap.strings.get(h).bytes.clone(),
    }
}

#[test]
fn string_repr_never_throws() {
    let mut agent = Agent::new();
    let err = agent
        .heap
        .errors
        .create(nova_vm::error::ErrorHeapData::new(
            nova_vm::error::ExceptionType::TypeError,
            None,
            None,
        ));
    let s = Value::Error(err).string_repr(&mut agent);
    assert_eq!(string_bytes(&agent, s), b"[object Error]".to_vec());
    let described = agent
        .heap
        .symbols
        .create(nova_vm::symbol::SymbolHeapData {
            descriptor: Some(nova_vm::string::JsString::Small(SmallString::from_bytes(
                b"tag",
            ))),
        });
    let s = Value::Symbol(described).string_repr(&mut agent);
    assert_eq!(string_bytes(&agent, s), b"Symbol(tag)".to_vec());
}

#[test]
fn root_repr_round_trip() {
    let int = Value::Integer(SmallInteger::from_i64(7));
    match Value::to_root_repr(int) {
        Ok(repr) => assert_eq!(Value::from_root_repr(&repr), Ok(int)),
        Err(_) => panic!("an inline integer needs no heap root"),
    }
    let mut agent = Agent::new();
    let heap_string = Value::from_str(&mut agent, "a longer text");
    match Value::to_root_repr(heap_string) {
        Ok(_) => panic!("a heap string must be parked"),
        Err(data) => assert_eq!(Value::from_heap_data(data), Some(heap_string)),
    }
    assert_eq!(Value::from_heap_data(HeapRootData::Empty), None);
    let scoped = Value::Boolean(true).scope_static();
    assert!(matches!(scoped.inner, ValueRootRepr::Boolean(true)));
}

#[test]
fn small_f64_classification() {
    assert!(SmallF64::nan().is_nan());
    assert!(!SmallF64::pos_inf().is_nan());
    assert!(SmallF64::pos_inf().is_pos_infinity());
    assert!(SmallF64::neg_inf().is_neg_infinity());
    assert!(SmallF64::pos_zero().is_pos_zero());
    assert!(SmallF64::neg_zero().is_neg_zero());
}

#[test]
fn string_to_number_edges() {
    let mut agent = Agent::new();
    // Signed numerals parse; a bare sign does not.
    let plus = Value::from_str(&mut agent, "+42");
    match nova_vm::type_conversion::to_number(&mut agent, plus).unwrap() {
        nova_vm::number::Number::Integer(i) => assert_eq!(i.into_i64(), 42),
        _ => panic!("expected an integer"),
    }
    let minus = Value::from_str(&mut agent, "-7");
    match nova_vm::type_conversion::to_number(&mut agent, minus).unwrap() {
        nova_vm::number::Number::Integer(i) => assert_eq!(i.into_i64(), -7),
        _ => panic!("expected an integer"),
    }
    let bare = Value::from_str(&mut agent, "-");
    match nova_vm::type_conversion::to_number(&mut agent, bare).unwrap() {
        nova_vm::number::Number::SmallF64(f) => assert!(f.is_nan()),
        _ => panic!("expected NaN"),
    }
    // A numeral beyond the safe integer range reads as no exact number.
    let wide = Value::from_str(&mut agent, "9007199254740993");
    match nova_vm::type_conversion::to_number(&mut agent, wide).unwrap() {
        nova_vm::number::Number::SmallF64(f) => assert!(f.is_nan()),
        _ => panic!("expected NaN"),
    }
    // The largest safe integer itself parses.
    let edge = Value::from_str(&mut agent, "9007199254740991");
    match nova_vm::type_conversion::to_number(&mut agent, edge).unwrap() {
        nova_vm::number::Number::Integer(i) => assert_eq!(i.into_i64(), 9007199254740991),
        _ => panic!("expected an integer"),
    }
}

#[test]
fn hasher_is_order_sensitive() {
    // One combining step from zero folds the word in unchanged; the second
    // multiplies the state by the prime first.
    let mut h = ValueHasher::new();
    h.write_u64(3);
    assert_eq!(h.state, 3);
    h.write_u64(1);
    assert_eq!(h.state, 3u64.wrapping_mul(0x100000001B3).wrapping_add(1));
    let mut a = ValueHasher::new();
    a.write_u64(1);
    a.write_u64(2);
    let mut b = ValueHasher::new();
    b.write_u64(2);
    b.write_u64(1);
    assert_ne!(a.state, b.state);
}
