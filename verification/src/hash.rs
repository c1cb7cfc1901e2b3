//! Hashing of values.
//!
//! Inline variants hash from their bits alone; heap-backed strings, numbers
//! and big-integers hash from their record's payload, which needs arena
//! access. A stack-only hash path exists and fails explicitly when given a
//! heap-backed string, number or big-integer, signalling the caller that
//! arena access is required — that asymmetry is part of the design.

use vstd::prelude::*;

verus! {

use crate::heap::Heap;
use crate::value::Value;

/// The multiplier of the combining step.
pub const HASH_PRIME: u64 = 0x100000001B3;

/// One combining step: fold a word into the running state.
pub open spec fn spec_combine(state: u64, word: u64) -> u64 {
    ((((state * HASH_PRIME) % 0x10000000000000000) + word) % 0x10000000000000000) as u64
}

/// Fold a byte row into the running state.
pub open spec fn spec_combine_bytes(state: u64, bytes: Seq<u8>) -> u64
    decreases bytes.len(),
{
    if bytes.len() == 0 {
        state
    } else {
        spec_combine(spec_combine_bytes(state, bytes.drop_last()), bytes.last() as u64)
    }
}

/// A word-folding hasher: multiply, wrap, add.
#[derive(Debug, Clone, Copy, PartialEq, Eq, Structural)]
pub struct ValueHasher {
    pub state: u64,
}

impl ValueHasher {
    /// Start from zero.
    pub fn new() -> (r: Self)
        ensures
            r.state == 0,
    {
        ValueHasher { state: 0 }
    }

    /// Fold one word in.
    pub fn write_u64(&mut self, word: u64)
        ensures
            final(self).state == spec_combine(old(self).state, word),
    {
        self.state = self.state.wrapping_mul(HASH_PRIME).wrapping_add(word);
    }

    /// Fold a byte row in, front to back.
    pub fn write_bytes(&mut self, bytes: &[u8])
        ensures
            final(self).state == spec_combine_bytes(old(self).state, bytes@),
    {
        let n = bytes.len();
        let mut i: usize = 0;
        while i < n
            invariant
                n == bytes@.len(),
                0 <= i <= n,
                self.state == spec_combine_bytes(old(self).state, bytes@.take(i as int)),
            decreases n - i,
        {
            proof {
                assert(bytes@.take(i + 1).drop_last() =~= bytes@.take(i as int));
                assert(bytes@.take(i + 1).last() == bytes@[i as int]);
            }
            self.write_u64(bytes[i] as u64);
            i += 1;
        }
        proof {
            assert(bytes@.take(n as int) =~= bytes@);
        }
    }
}

/// The tag word a variant folds in before its payload. Strings, numbers and
/// big-integers skip the tag so equal content hashes alike whether inline or
/// heap-resident.
pub open spec fn spec_value_tag(v: Value) -> u64 {
    match v {
        Value::Undefined => 1,
        Value::Null => 2,
        Value::Boolean(_) => 3,
        Value::Symbol(_) => 6,
        Value::Object(_) => 12,
        Value::BoundFunction(_) => 13,
        Value::BuiltinFunction(_) => 14,
        Value::ECMAScriptFunction(_) => 15,
        Value::PrimitiveObject(_) => 16,
        Value::Arguments(_) => 17,
        Value::Array(_) => 18,
        Value::Date(_) => 19,
        Value::Error(_) => 20,
        Value::Promise(_) => 21,
        Value::RegExp(_) => 22,
        Value::SetObject(_) => 23,
        Value::AsyncGenerator(_) => 24,
        Value::Generator(_) => 25,
        _ => 0,
    }
}

/// The two's-complement word of a signed payload.
pub open spec fn spec_word_of_i64(v: int) -> u64 {
    (v % 0x10000000000000000) as u64
}

/// What the stack-only hash path folds in, when it can: heap-backed strings,
/// numbers and big-integers need arena access and have no stack-only hash.
pub open spec fn spec_try_hash(v: Value, state: u64) -> Option<u64> {
    match v {
        Value::String(_) => None,
        Value::Number(_) => None,
        Value::BigInt(_) => None,
        Value::Undefined => Some(spec_combine(state, spec_value_tag(v))),
        Value::Null => Some(spec_combine(state, spec_value_tag(v))),
        Value::Boolean(b) => Some(
            spec_combine(
                spec_combine(state, spec_value_tag(v)),
                if b {
                    1
                } else {
                    0
                },
            ),
        ),
        Value::SmallString(s) => Some(spec_combine_bytes(state, s@)),
        Value::Symbol(h) => Some(
            spec_combine(spec_combine(state, spec_value_tag(v)), h.index() as u64),
        ),
        Value::Integer(i) => Some(spec_combine(state, spec_word_of_i64(i.value()))),
        Value::SmallF64(f) => Some(spec_combine(state, (f.bits() * 256) as u64)),
        Value::SmallBigInt(b) => Some(spec_combine(state, spec_word_of_i64(b.value()))),
        Value::Object(h) => Some(
            spec_combine(spec_combine(state, spec_value_tag(v)), h.index() as u64),
        ),
        Value::BoundFunction(h) => Some(
            spec_combine(spec_combine(state, spec_value_tag(v)), h.index() as u64),
        ),
        Value::BuiltinFunction(h) => Some(
            spec_combine(spec_combine(state, spec_value_tag(v)), h.index() as u64),
        ),
        Value::ECMAScriptFunction(h) => Some(
            spec_combine(spec_combine(state, spec_value_tag(v)), h.index() as u64),
        ),
        Value::PrimitiveObject(h) => Some(
            spec_combine(spec_combine(state, spec_value_tag(v)), h.index() as u64),
        ),
        Value::Arguments(h) => Some(
            spec_combine(spec_combine(state, spec_value_tag(v)), h.index() as u64),
        ),
        Value::Array(a) => Some(
            spec_combine(spec_combine(state, spec_value_tag(v)), a.0.index() as u64),
        ),
        Value::Date(h) => Some(
            spec_combine(spec_combine(state, spec_value_tag(v)), h.index() as u64),
        ),
        Value::Error(h) => Some(
            spec_combine(spec_combine(state, spec_value_tag(v)), h.index() as u64),
        ),
        Value::Promise(h) => Some(
            spec_combine(spec_combine(state, spec_value_tag(v)), h.index() as u64),
        ),
        Value::RegExp(h) => Some(
            spec_combine(spec_combine(state, spec_value_tag(v)), h.index() as u64),
        ),
        Value::SetObject(s) => Some(
            spec_combine(spec_combine(state, spec_value_tag(v)), s.0.index() as u64),
        ),
        Value::AsyncGenerator(g) => Some(
            spec_combine(spec_combine(state, spec_value_tag(v)), g.0.index() as u64),
        ),
        Value::Generator(h) => Some(
            spec_combine(spec_combine(state, spec_value_tag(v)), h.index() as u64),
        ),
    }
}

/// What the arena-backed hash path folds in: like the stack-only path, with
/// heap-backed strings hashing their content bytes, heap numbers their bit
/// pattern, and heap big-integers their value words.
pub open spec fn spec_hash(heap: Heap, v: Value, state: u64) -> u64 {
    match v {
        Value::String(h) => spec_combine_bytes(state, heap.strings.spec_get(h).bytes@),
        Value::Number(h) => spec_combine(state, heap.numbers.spec_get(h).bits),
        Value::BigInt(h) => spec_combine(
            spec_combine(state, heap.bigints.spec_get(h).data as u64),
            (heap.bigints.spec_get(h).data >> 64) as u64,
        ),
        _ => spec_try_hash(v, state)->Some_0,
    }
}

/// The two's-complement word of a native signed integer.
fn word_of_i64(v: i64) -> (r: u64)
    ensures
        r == spec_word_of_i64(v as int),
{
    if v >= 0 {
        v as u64
    } else {
        (v + 0x4000000000000000 + 0x4000000000000000) as u64 + 0x8000000000000000
    }
}

impl Value {
    /// Hash without arena access. Fails — by design — exactly on heap-backed
    /// strings, numbers and big-integers, whose content lives in an arena.
    pub fn try_hash(self, hasher: &mut ValueHasher) -> (r: Result<(), ()>)
        ensures
            r is Err <==> (self matches Value::String(_) || self matches Value::Number(_)
                || self matches Value::BigInt(_)),
            match spec_try_hash(self, old(hasher).state) {
                Some(state) => r is Ok && final(hasher).state == state,
                None => r is Err && final(hasher).state == old(hasher).state,
            },
    {
        match self {
            Value::String(_) | Value::Number(_) | Value::BigInt(_) => Err(()),
            Value::Undefined => {
                hasher.write_u64(1);
                Ok(())
            },
            Value::Null => {
                hasher.write_u64(2);
                Ok(())
            },
            Value::Boolean(b) => {
                hasher.write_u64(3);
                hasher.write_u64(
                    if b {
                        1
                    } else {
                        0
                    },
                );
                Ok(())
            },
            Value::SmallString(s) => {
                let bytes = s.to_vec();
                hasher.write_bytes(bytes.as_slice());
                Ok(())
            },
            Value::Integer(i) => {
                let v = i.into_i64();
                hasher.write_u64(word_of_i64(v));
                Ok(())
            },
            Value::SmallF64(f) => {
                hasher.write_u64(small_f64_word(f));
                Ok(())
            },
            Value::SmallBigInt(b) => {
                let v = b.into_i64();
                hasher.write_u64(word_of_i64(v));
                Ok(())
            },
            Value::Symbol(h) => {
                hasher.write_u64(6);
                hasher.write_u64(h.into_u32_index() as u64);
                Ok(())
            },
            Value::Object(h) => {
                hasher.write_u64(12);
                hasher.write_u64(h.into_u32_index() as u64);
                Ok(())
            },
            Value::BoundFunction(h) => {
                hasher.write_u64(13);
                hasher.write_u64(h.into_u32_index() as u64);
                Ok(())
            },
            Value::BuiltinFunction(h) => {
                hasher.write_u64(14);
                hasher.write_u64(h.into_u32_index() as u64);
                Ok(())
            },
            Value::ECMAScriptFunction(h) => {
                hasher.write_u64(15);
                hasher.write_u64(h.into_u32_index() as u64);
                Ok(())
            },
            Value::PrimitiveObject(h) => {
                hasher.write_u64(16);
                hasher.write_u64(h.into_u32_index() as u64);
                Ok(())
            },
            Value::Arguments(h) => {
                hasher.write_u64(17);
                hasher.write_u64(h.into_u32_index() as u64);
                Ok(())
            },
            Value::Array(a) => {
                hasher.write_u64(18);
                hasher.write_u64(a.0.into_u32_index() as u64);
                Ok(())
            },
            Value::Date(h) => {
                hasher.write_u64(19);
                hasher.write_u64(h.into_u32_index() as u64);
                Ok(())
            },
            Value::Error(h) => {
                hasher.write_u64(20);
                hasher.write_u64(h.into_u32_index() as u64);
                Ok(())
            },
            Value::Promise(h) => {
                hasher.write_u64(21);
                hasher.write_u64(h.into_u32_index() as u64);
                Ok(())
            },
            Value::RegExp(h) => {
                hasher.write_u64(22);
                hasher.write_u64(h.into_u32_index() as u64);
                Ok(())
            },
            Value::SetObject(s) => {
                hasher.write_u64(23);
                hasher.write_u64(s.0.into_u32_index() as u64);
                Ok(())
            },
            Value::AsyncGenerator(g) => {
                hasher.write_u64(24);
                hasher.write_u64(g.0.into_u32_index() as u64);
                Ok(())
            },
            Value::Generator(h) => {
                hasher.write_u64(25);
                hasher.write_u64(h.into_u32_index() as u64);
                Ok(())
            },
        }
    }

    /// Hash with arena access: heap-backed strings hash their content bytes,
    /// heap numbers their bit pattern, heap big-integers their value; every
    /// other variant hashes as on the stack-only path.
    pub fn hash(self, heap: &Heap, hasher: &mut ValueHasher)
        requires
            (self matches Value::String(h) ==> heap.strings.valid(h)),
            (self matches Value::Number(h) ==> heap.numbers.valid(h)),
            (self matches Value::BigInt(h) ==> heap.bigints.valid(h)),
        ensures
            final(hasher).state == spec_hash(*heap, self, old(hasher).state),
    {
        match self {
            Value::String(h) => {
                let record = heap.strings.get(h);
                hasher.write_bytes(record.bytes.as_slice());
            },
            Value::Number(h) => {
                let record = heap.numbers.get(h);
                hasher.write_u64(record.bits);
            },
            Value::BigInt(h) => {
                let record = heap.bigints.get(h);
                let data = record.data;
                let low = data as u64;
                let high = (data >> 64) as u64;
                hasher.write_u64(low);
                hasher.write_u64(high);
            },
            other => {
                let r = other.try_hash(hasher);
                proof {
                    assert(r is Ok);
                }
            },
        }
    }
}

/// The full 64-bit pattern an inline double denotes: its stored 56 bits over
/// a zero low byte.
pub fn small_f64_word(f: crate::small_f64::SmallF64) -> (r: u64)
    ensures
        r == f.bits() * 256,
{
    let (b0, b1, b2, b3, b4, b5, b6) = small_f64_parts(f);
    let m = crate::small_integer::unpack56(b0, b1, b2, b3, b4, b5, b6);
    m * 256
}

/// The seven stored bytes of an inline double.
fn small_f64_parts(f: crate::small_f64::SmallF64) -> (r: (u8, u8, u8, u8, u8, u8, u8))
    ensures
        crate::small_integer::le56(r.0, r.1, r.2, r.3, r.4, r.5, r.6) == f.bits(),
{
    f.to_parts()
}

} // verus!
