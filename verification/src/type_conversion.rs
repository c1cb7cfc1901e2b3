//! Conversions between value types.
//!
//! The runtime stores doubles as bit patterns and never evaluates
//! floating-point arithmetic, so conversions are defined on the numbers it
//! can read exactly: inline integers, and the special double patterns
//! (zeroes, infinities, NaN). Converting an inexact double is excluded by
//! precondition. Object-to-primitive coercion belongs to the
//! property-protocol collaborator and answers a `TypeError` here.

use vstd::prelude::*;

verus! {

use crate::agent::{Agent, spec_string_bytes};
use crate::bigint::BigInt;
use crate::error::{ExceptionType, JsError};
use crate::heap::Heap;
use crate::number::Number;
use crate::small_f64::SmallF64;
use crate::small_integer::{MAX_SAFE_INTEGER, SmallInteger};
use crate::string::JsString;
use crate::value::Value;

/// Which primitive an object-to-primitive coercion should prefer. The
/// coercion itself belongs to the property-protocol collaborator; the
/// preference travels with the request.
#[derive(Debug, Clone, Copy)]
pub enum PreferredType {
    String,
    Number,
}

/// The number a digit row spells out.
pub open spec fn spec_digits_value(s: Seq<u8>) -> int
    decreases s.len(),
{
    if s.len() == 0 {
        0
    } else {
        spec_digits_value(s.drop_last()) * 10 + (s.last() - 0x30)
    }
}

/// Is every byte an ASCII digit?
pub open spec fn spec_all_digits(s: Seq<u8>) -> bool {
    forall|i: int| 0 <= i < s.len() ==> 0x30 <= #[trigger] s[i] <= 0x39
}

/// The number a string's bytes denote: empty is zero; an optional sign
/// followed by digits is that integer; anything else is no number (NaN).
pub open spec fn spec_parse_number(bytes: Seq<u8>) -> Option<int> {
    if bytes.len() == 0 {
        Some(0)
    } else if bytes[0] == 0x2D && bytes.len() > 1 && spec_all_digits(bytes.skip(1)) {
        Some(-spec_digits_value(bytes.skip(1)))
    } else if bytes[0] == 0x2B && bytes.len() > 1 && spec_all_digits(bytes.skip(1)) {
        Some(spec_digits_value(bytes.skip(1)))
    } else if spec_all_digits(bytes) {
        Some(spec_digits_value(bytes))
    } else {
        None
    }
}

/// Read an all-digits row as an integer, refusing rows beyond the safe
/// integer range.
fn digits_value(bytes: &[u8], from: usize) -> (r: Option<i64>)
    requires
        from < bytes@.len(),
        spec_all_digits(bytes@.skip(from as int)),
    ensures
        r matches Some(v) ==> v == spec_digits_value(bytes@.skip(from as int)) && 0 <= v
            <= MAX_SAFE_INTEGER,
        r is None ==> spec_digits_value(bytes@.skip(from as int)) > MAX_SAFE_INTEGER,
{
    let n = bytes.len();
    let mut acc: i64 = 0;
    let mut i: usize = from;
    proof {
        assert(bytes@.skip(from as int).take(0) =~= Seq::<u8>::empty());
        lemma_digits_nonneg(bytes@.skip(from as int));
    }
    while i < n
        invariant
            from <= i <= n,
            n == bytes@.len(),
            from < n,
            spec_all_digits(bytes@.skip(from as int)),
            0 <= acc <= MAX_SAFE_INTEGER,
            acc == spec_digits_value(bytes@.skip(from as int).take(i - from)),
        decreases n - i,
    {
        let ghost tail = bytes@.skip(from as int);
        proof {
            assert(tail.take(i - from + 1).drop_last() =~= tail.take(i - from));
            assert(tail.take(i - from + 1).last() == bytes@[i as int]);
        }
        let d = bytes[i];
        if acc > (MAX_SAFE_INTEGER - (d - 0x30) as i64) / 10 {
            proof {
                lemma_digits_prefix_monotonic(tail, i - from + 1);
            }
            return None;
        }
        acc = acc * 10 + (d - 0x30) as i64;
        i += 1;
    }
    proof {
        assert(bytes@.skip(from as int).take(n - from) =~= bytes@.skip(from as int));
    }
    Some(acc)
}

/// A digit row's value is never negative.
proof fn lemma_digits_nonneg(s: Seq<u8>)
    requires
        spec_all_digits(s),
    ensures
        spec_digits_value(s) >= 0,
    decreases s.len(),
{
    if s.len() > 0 {
        assert(spec_all_digits(s.drop_last())) by {
            assert(forall|i: int| 0 <= i < s.len() - 1 ==> s.drop_last()[i] == s[i]);
        }
        lemma_digits_nonneg(s.drop_last());
    }
}

/// Extending a digit row never shrinks its value.
proof fn lemma_digits_prefix_monotonic(s: Seq<u8>, k: int)
    requires
        spec_all_digits(s),
        0 <= k <= s.len(),
    ensures
        spec_digits_value(s) >= spec_digits_value(s.take(k)),
    decreases s.len() - k,
{
    if k < s.len() {
        assert(spec_all_digits(s.take(k + 1))) by {
            assert(forall|i: int| 0 <= i < k + 1 ==> s.take(k + 1)[i] == s[i]);
        }
        assert(spec_all_digits(s.take(k))) by {
            assert(forall|i: int| 0 <= i < k ==> s.take(k)[i] == s[i]);
        }
        assert(s.take(k + 1).drop_last() =~= s.take(k));
        lemma_digits_nonneg(s.take(k));
        assert(spec_digits_value(s.take(k + 1)) >= spec_digits_value(s.take(k)));
        lemma_digits_prefix_monotonic(s, k + 1);
    } else {
        assert(s.take(k) =~= s);
    }
}

/// Scan whether every byte from `from` on is an ASCII digit.
fn all_digits(bytes: &[u8], from: usize) -> (r: bool)
    requires
        from <= bytes@.len(),
    ensures
        r == spec_all_digits(bytes@.skip(from as int)),
{
    let n = bytes.len();
    let mut i: usize = from;
    while i < n
        invariant
            from <= i <= n,
            n == bytes@.len(),
            forall|j: int| from <= j < i ==> 0x30 <= #[trigger] bytes@[j] <= 0x39,
        decreases n - i,
    {
        if bytes[i] < 0x30 || bytes[i] > 0x39 {
            proof {
                assert(bytes@.skip(from as int)[i - from] == bytes@[i as int]);
            }
            return false;
        }
        i += 1;
    }
    proof {
        assert forall|j: int| 0 <= j < bytes@.skip(from as int).len() implies 0x30 <= #[trigger]
        bytes@.skip(from as int)[j] <= 0x39 by {
            assert(bytes@.skip(from as int)[j] == bytes@[j + from]);
        }
    }
    true
}

/// The number a string converts to, when the runtime can compute it exactly:
/// in range, it is the parsed integer; out of the safe range or not a plain
/// integer numeral, it is NaN.
pub open spec fn spec_string_to_number(bytes: Seq<u8>) -> Option<int> {
    match spec_parse_number(bytes) {
        Some(v) => if -MAX_SAFE_INTEGER <= v <= MAX_SAFE_INTEGER {
            Some(v)
        } else {
            None
        },
        None => None,
    }
}

/// Convert a string's bytes to a number: the parsed safe integer, or NaN.
fn string_to_number(bytes: &[u8]) -> (r: Number)
    ensures
        match spec_string_to_number(bytes@) {
            Some(v) => r matches Number::Integer(i) && i.value() == v,
            None => r matches Number::SmallF64(f) && f.spec_is_nan(),
        },
{
    let n = bytes.len();
    if n == 0 {
        return Number::Integer(SmallInteger::from_i64(0));
    }
    let (negative, from): (bool, usize) = if bytes[0] == 0x2D && n > 1 {
        (true, 1)
    } else if bytes[0] == 0x2B && n > 1 {
        (false, 1)
    } else {
        (false, 0)
    };
    if !all_digits(bytes, from) {
        proof {
            if from == 0 {
                assert(bytes@.skip(0) =~= bytes@);
            }
        }
        return Number::SmallF64(SmallF64::nan());
    }
    proof {
        if from == 0 {
            assert(bytes@.skip(0) =~= bytes@);
        }
    }
    match digits_value(bytes, from) {
        Some(v) => {
            let signed: i64 = if negative {
                -v
            } else {
                v
            };
            Number::Integer(SmallInteger::from_i64(signed))
        },
        None => Number::SmallF64(SmallF64::nan()),
    }
}

/// Is the value a double the runtime cannot read exactly: any pattern other
/// than the zeroes, the infinities and NaN?
pub open spec fn spec_is_inexact_number(heap: Heap, v: Value) -> bool {
    match v {
        Value::SmallF64(f) => !(f.spec_is_pos_zero() || f.spec_is_neg_zero()
            || f.spec_is_pos_infinity() || f.spec_is_neg_infinity() || f.spec_is_nan()),
        Value::Number(h) => {
            let bits = heap.numbers.spec_get(h).bits;
            !(bits == 0 || bits == crate::number::F64_NEG_ZERO_BITS || bits
                == crate::number::F64_POS_INFINITY_BITS || bits
                == crate::number::F64_NEG_INFINITY_BITS || crate::number::spec_f64_bits_nan(bits))
        },
        _ => false,
    }
}

/// The exact number a convertible value denotes, `None` standing for NaN.
/// Infinities have no entry here; conversions treat them per operation.
pub open spec fn spec_to_number_exact(heap: Heap, v: Value) -> Option<int> {
    match v {
        Value::Undefined => None,
        Value::Null => Some(0),
        Value::Boolean(b) => Some(
            if b {
                1int
            } else {
                0int
            },
        ),
        Value::Integer(i) => Some(i.value()),
        Value::SmallString(s) => spec_string_to_number(s@),
        Value::String(h) => spec_string_to_number(heap.strings.spec_get(h).bytes@),
        _ => None,
    }
}

/// ToNumber, on the values the runtime can convert exactly.
///
/// Booleans, `null`, `undefined`, numbers and integer numerals convert;
/// big-integers, symbols and objects answer a `TypeError` (object coercion
/// belongs to the property-protocol collaborator).
pub fn to_number(agent: &mut Agent, v: Value) -> (r: Result<Number, JsError>)
    requires
        (v matches Value::String(h) ==> old(agent).heap.strings.valid(h)),
        old(agent).heap.strings@.len() < u32::MAX,
        old(agent).heap.errors@.len() < u32::MAX,
    ensures
        r is Err <==> (v.spec_is_bigint() || v matches Value::Symbol(_) || v.spec_is_object()),
        r matches Ok(n) ==> match v {
            Value::Number(h) => n == Number::Number(h),
            Value::SmallF64(f) => n == Number::SmallF64(f),
            Value::Integer(i) => n == Number::Integer(i),
            Value::Undefined => n matches Number::SmallF64(f) && f.spec_is_nan(),
            _ => match spec_to_number_exact(old(agent).heap, v) {
                Some(value) => n matches Number::Integer(i) && i.value() == value,
                None => n matches Number::SmallF64(f) && f.spec_is_nan(),
            },
        },
        final(agent).heap == (Heap {
            errors: final(agent).heap.errors,
            strings: final(agent).heap.strings,
            ..old(agent).heap
        }),
        final(agent).heap.strings@.len() <= old(agent).heap.strings@.len() + 1,
        r is Ok ==> *final(agent) == *old(agent),
{
    match v {
        Value::Undefined => Ok(Number::SmallF64(SmallF64::nan())),
        Value::Null => Ok(Number::Integer(SmallInteger::from_i64(0))),
        Value::Boolean(b) => Ok(
            Number::Integer(
                SmallInteger::from_i64(
                    if b {
                        1
                    } else {
                        0
                    },
                ),
            ),
        ),
        Value::Number(h) => Ok(Number::Number(h)),
        Value::Integer(i) => Ok(Number::Integer(i)),
        Value::SmallF64(f) => Ok(Number::SmallF64(f)),
        Value::SmallString(s) => {
            let bytes = s.to_vec();
            Ok(string_to_number(bytes.as_slice()))
        },
        Value::String(h) => {
            let record = agent.heap.strings.get(h);
            Ok(string_to_number(record.bytes.as_slice()))
        },
        Value::BigInt(_) | Value::SmallBigInt(_) => Err(
            agent.throw_exception(
                ExceptionType::TypeError,
                "cannot convert a BigInt to a number",
            ),
        ),
        Value::Symbol(_) => Err(
            agent.throw_exception(
                ExceptionType::TypeError,
                "cannot convert a Symbol to a number",
            ),
        ),
        _ => Err(
            agent.throw_exception(
                ExceptionType::TypeError,
                "cannot convert an object without primitive coercion",
            ),
        ),
    }
}

/// The 32-bit unsigned reading of an exact number: the value modulo `2^32`;
/// NaN, the infinities and the zeroes read zero.
pub open spec fn spec_to_uint32(heap: Heap, v: Value) -> u32 {
    match spec_to_number_exact(heap, v) {
        Some(value) => (value % 0x100000000) as u32,
        None => 0,
    }
}

/// ToUint32, on the values the runtime can convert exactly.
pub fn to_uint32(agent: &mut Agent, v: Value) -> (r: Result<u32, JsError>)
    requires
        (v matches Value::String(h) ==> old(agent).heap.strings.valid(h)),
        (v matches Value::Number(h) ==> old(agent).heap.numbers.valid(h)),
        !spec_is_inexact_number(old(agent).heap, v),
        old(agent).heap.strings@.len() < u32::MAX,
        old(agent).heap.errors@.len() < u32::MAX,
    ensures
        r is Err <==> (v.spec_is_bigint() || v matches Value::Symbol(_) || v.spec_is_object()),
        r matches Ok(n) ==> n == spec_to_uint32(old(agent).heap, v),
        final(agent).heap == (Heap {
            errors: final(agent).heap.errors,
            strings: final(agent).heap.strings,
            ..old(agent).heap
        }),
        final(agent).heap.strings@.len() <= old(agent).heap.strings@.len() + 1,
        r is Ok ==> *final(agent) == *old(agent),
{
    let number = match to_number(agent, v) {
        Ok(n) => n,
        Err(e) => {
            return Err(e);
        },
    };
    match number {
        Number::Integer(i) => {
            let value = i.into_i64();
            let m = value % 0x100000000;
            let wrapped: i64 = if m < 0 {
                m + 0x100000000
            } else {
                m
            };
            proof {
                assert(wrapped == i.value() % 0x100000000);
            }
            Ok(wrapped as u32)
        },
        _ => Ok(0),
    }
}

/// The big-integer a value converts to: only big-integers themselves
/// convert; everything else is a `TypeError` here.
pub fn to_big_int(agent: &mut Agent, v: Value) -> (r: Result<BigInt, JsError>)
    requires
        old(agent).heap.strings@.len() < u32::MAX,
        old(agent).heap.errors@.len() < u32::MAX,
    ensures
        r is Err <==> !v.spec_is_bigint(),
        match v {
            Value::BigInt(h) => r == Ok::<BigInt, JsError>(BigInt::BigInt(h)),
            Value::SmallBigInt(b) => r == Ok::<BigInt, JsError>(BigInt::SmallBigInt(b)),
            _ => r is Err,
        },
{
    match v {
        Value::BigInt(h) => Ok(BigInt::BigInt(h)),
        Value::SmallBigInt(b) => Ok(BigInt::SmallBigInt(b)),
        _ => Err(
            agent.throw_exception(ExceptionType::TypeError, "cannot convert value to a BigInt"),
        ),
    }
}

} // verus!
