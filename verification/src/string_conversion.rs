//! Conversions into strings: decimal printing, ToString, and the
//! never-throwing display forms used when exceptions are shown.

use vstd::prelude::*;

verus! {

use vstd::string::StringSliceAdditionalSpecFns;

use crate::agent::{Agent, spec_string_bytes};
use crate::error::{ExceptionType, JsError};
use crate::object::Object;
use crate::string::JsString;
use crate::symbol::Symbol;
use crate::value::Value;

/// The decimal digits of a non-negative number, most significant first.
pub open spec fn spec_decimal_digits(n: int) -> Seq<u8>
    decreases n,
{
    if n < 10 {
        seq![(0x30 + if n >= 0 { n } else { 0 }) as u8]
    } else {
        spec_decimal_digits(n / 10).push((0x30 + n % 10) as u8)
    }
}

/// The decimal spelling of a signed number.
pub open spec fn spec_decimal_bytes(n: int) -> Seq<u8> {
    if n < 0 {
        seq![0x2Du8] + spec_decimal_digits(-n)
    } else {
        spec_decimal_digits(n)
    }
}

/// Append the decimal digits of a non-negative number.
fn push_decimal_digits(n: u128, out: &mut Vec<u8>)
    ensures
        final(out)@ == old(out)@ + spec_decimal_digits(n as int),
    decreases n,
{
    if n < 10 {
        let ghost pre = out@;
        out.push(0x30 + n as u8);
        proof {
            assert(out@ =~= pre + spec_decimal_digits(n as int));
        }
    } else {
        push_decimal_digits(n / 10, out);
        let ghost pre = out@;
        out.push(0x30 + (n % 10) as u8);
        proof {
            assert(out@ =~= pre.push((0x30 + n % 10) as u8));
            assert(out@ =~= old(out)@ + spec_decimal_digits(n as int));
        }
    }
}

/// The decimal spelling of a signed 128-bit number.
pub fn decimal_bytes_of_i128(n: i128) -> (r: Vec<u8>)
    ensures
        r@ == spec_decimal_bytes(n as int),
{
    let mut out: Vec<u8> = Vec::new();
    if n < 0 {
        out.push(0x2D);
        let magnitude: u128 = if n == i128::MIN {
            0x80000000000000000000000000000000u128
        } else {
            (-n) as u128
        };
        proof {
            assert(magnitude == -(n as int));
        }
        push_decimal_digits(magnitude, &mut out);
        proof {
            assert(out@ =~= spec_decimal_bytes(n as int));
        }
    } else {
        push_decimal_digits(n as u128, &mut out);
    }
    out
}

/// The decimal spelling of a signed 64-bit number.
pub fn decimal_bytes_of_i64(n: i64) -> (r: Vec<u8>)
    ensures
        r@ == spec_decimal_bytes(n as int),
{
    decimal_bytes_of_i128(n as i128)
}

/// What ToString answers on the values the runtime can spell exactly:
/// strings themselves, booleans, the null values, safe integers, the special
/// doubles, and big-integers.
pub open spec fn spec_to_string_bytes(heap: crate::heap::Heap, v: Value) -> Seq<u8> {
    match v {
        Value::Undefined => "undefined"@.map_values(|c: char| c as u8),
        Value::Null => "null"@.map_values(|c: char| c as u8),
        Value::Boolean(b) => if b {
            "true"@.map_values(|c: char| c as u8)
        } else {
            "false"@.map_values(|c: char| c as u8)
        },
        Value::SmallString(s) => s@,
        Value::String(h) => heap.strings.spec_get(h).bytes@,
        Value::Integer(i) => spec_decimal_bytes(i.value()),
        Value::SmallBigInt(b) => spec_decimal_bytes(b.value()),
        Value::BigInt(h) => spec_decimal_bytes(heap.bigints.spec_get(h).data as int),
        Value::SmallF64(f) => if f.spec_is_nan() {
            "NaN"@.map_values(|c: char| c as u8)
        } else if f.spec_is_pos_infinity() {
            "Infinity"@.map_values(|c: char| c as u8)
        } else if f.spec_is_neg_infinity() {
            "-Infinity"@.map_values(|c: char| c as u8)
        } else {
            "0"@.map_values(|c: char| c as u8)
        },
        Value::Number(h) => {
            let bits = heap.numbers.spec_get(h).bits;
            if crate::number::spec_f64_bits_nan(bits) {
                "NaN"@.map_values(|c: char| c as u8)
            } else if bits == crate::number::F64_POS_INFINITY_BITS {
                "Infinity"@.map_values(|c: char| c as u8)
            } else if bits == crate::number::F64_NEG_INFINITY_BITS {
                "-Infinity"@.map_values(|c: char| c as u8)
            } else {
                "0"@.map_values(|c: char| c as u8)
            }
        },
        _ => Seq::empty(),
    }
}

/// Copy ASCII literal text into bytes.
fn ascii_bytes(text: &str) -> (r: Vec<u8>)
    requires
        vstd::utf8::is_ascii_chars(text@),
    ensures
        r@ == text@.map_values(|c: char| c as u8),
{
    let r = crate::agent::str_to_bytes(text);
    proof {
        vstd::utf8::is_ascii_chars_encode_utf8(text@);
        assert(r@ =~= text@.map_values(|c: char| c as u8));
    }
    r
}

/// ToString, on the values the runtime can spell exactly.
///
/// Symbols and objects answer a `TypeError` (symbol display goes through
/// [`descriptive_string`]; object coercion belongs to the property-protocol
/// collaborator); an inexact double is excluded by precondition.
pub fn to_string(agent: &mut Agent, v: Value) -> (r: Result<JsString, JsError>)
    requires
        (v matches Value::String(h) ==> old(agent).heap.strings.valid(h)),
        (v matches Value::Number(h) ==> old(agent).heap.numbers.valid(h)),
        (v matches Value::BigInt(h) ==> old(agent).heap.bigints.valid(h)),
        !crate::type_conversion::spec_is_inexact_number(old(agent).heap, v),
        old(agent).heap.strings@.len() < u32::MAX,
        old(agent).heap.errors@.len() < u32::MAX,
    ensures
        r is Err <==> (v matches Value::Symbol(_) || v.spec_is_object()),
        r matches Ok(s) ==> spec_string_bytes(final(agent).heap, s) == spec_to_string_bytes(
            old(agent).heap,
            v,
        ),
        final(agent).heap.strings@.len() <= old(agent).heap.strings@.len() + 1,
{
    proof {
        reveal_strlit("undefined");
        reveal_strlit("null");
        reveal_strlit("true");
        reveal_strlit("false");
        reveal_strlit("NaN");
        reveal_strlit("Infinity");
        reveal_strlit("-Infinity");
        reveal_strlit("0");
    }
    match v {
        Value::Undefined => Ok(agent.alloc_string_from_bytes(ascii_bytes("undefined"))),
        Value::Null => Ok(agent.alloc_string_from_bytes(ascii_bytes("null"))),
        Value::Boolean(b) => {
            if b {
                Ok(agent.alloc_string_from_bytes(ascii_bytes("true")))
            } else {
                Ok(agent.alloc_string_from_bytes(ascii_bytes("false")))
            }
        },
        Value::SmallString(s) => Ok(JsString::Small(s)),
        Value::String(h) => Ok(JsString::Heap(h)),
        Value::Integer(i) => {
            let bytes = decimal_bytes_of_i64(i.into_i64());
            Ok(agent.alloc_string_from_bytes(bytes))
        },
        Value::SmallBigInt(b) => {
            let bytes = decimal_bytes_of_i64(b.into_i64());
            Ok(agent.alloc_string_from_bytes(bytes))
        },
        Value::BigInt(h) => {
            let data = agent.heap.bigints.get(h).data;
            let bytes = decimal_bytes_of_i128(data);
            Ok(agent.alloc_string_from_bytes(bytes))
        },
        Value::SmallF64(f) => {
            if f.is_nan() {
                Ok(agent.alloc_string_from_bytes(ascii_bytes("NaN")))
            } else if f.is_pos_infinity() {
                Ok(agent.alloc_string_from_bytes(ascii_bytes("Infinity")))
            } else if f.is_neg_infinity() {
                Ok(agent.alloc_string_from_bytes(ascii_bytes("-Infinity")))
            } else {
                Ok(agent.alloc_string_from_bytes(ascii_bytes("0")))
            }
        },
        Value::Number(h) => {
            let bits = agent.heap.numbers.get(h).bits;
            let exp = (bits / 0x10000000000000) % 0x800;
            let mantissa = bits % 0x10000000000000;
            if exp == 0x7FF && mantissa != 0 {
                Ok(agent.alloc_string_from_bytes(ascii_bytes("NaN")))
            } else if bits == crate::number::F64_POS_INFINITY_BITS {
                Ok(agent.alloc_string_from_bytes(ascii_bytes("Infinity")))
            } else if bits == crate::number::F64_NEG_INFINITY_BITS {
                Ok(agent.alloc_string_from_bytes(ascii_bytes("-Infinity")))
            } else {
                Ok(agent.alloc_string_from_bytes(ascii_bytes("0")))
            }
        },
        Value::Symbol(_) => Err(
            agent.throw_exception(
                ExceptionType::TypeError,
                "cannot convert a Symbol to a string",
            ),
        ),
        _ => Err(
            agent.throw_exception(
                ExceptionType::TypeError,
                "cannot convert an object without primitive coercion",
            ),
        ),
    }
}

/// The descriptive text of a symbol: `Symbol(` + description + `)`.
pub open spec fn spec_descriptive_bytes(heap: crate::heap::Heap, symbol: Symbol) -> Seq<u8> {
    "Symbol("@.map_values(|c: char| c as u8) + (match heap.symbols.spec_get(symbol).descriptor {
        Some(d) => spec_string_bytes(heap, d),
        None => Seq::<u8>::empty(),
    }) + ")"@.map_values(|c: char| c as u8)
}

/// The descriptive string of a symbol: `Symbol(description)`.
pub fn descriptive_string(agent: &mut Agent, symbol: Symbol) -> (r: JsString)
    requires
        old(agent).heap.symbols.valid(symbol),
        (match old(agent).heap.symbols.spec_get(symbol).descriptor {
            Some(JsString::Heap(h)) => old(agent).heap.strings.valid(h),
            _ => true,
        }),
        old(agent).heap.strings@.len() < u32::MAX,
    ensures
        spec_string_bytes(final(agent).heap, r) == spec_descriptive_bytes(
            old(agent).heap,
            symbol,
        ),
{
    proof {
        reveal_strlit("Symbol(");
        reveal_strlit(")");
    }
    let mut bytes = ascii_bytes("Symbol(");
    let record = agent.heap.symbols.get(symbol);
    match record.descriptor {
        Some(JsString::Small(s)) => {
            let mut content = s.to_vec();
            bytes.append(&mut content);
        },
        Some(JsString::Heap(h)) => {
            let record = agent.heap.strings.get(h);
            let mut content = record.bytes.clone();
            proof {
                assert(content@ =~= agent.heap.strings.spec_get(h).bytes@);
            }
            bytes.append(&mut content);
        },
        None => {},
    }
    let mut close = ascii_bytes(")");
    bytes.append(&mut close);
    agent.alloc_string_from_bytes(bytes)
}

/// The fixed display text of an object kind: what a failed string conversion
/// falls back to when an exception must still be shown.
pub fn map_object_to_static_string_repr(agent: &mut Agent, value: Value) -> (r: JsString)
    requires
        value.spec_is_object(),
        old(agent).heap.strings@.len() < u32::MAX,
    ensures
        spec_string_bytes(final(agent).heap, r) == spec_static_repr_text(value).map_values(
            |c: char| c as u8,
        ),
{
    proof {
        reveal_strlit("[object Function]");
        reveal_strlit("[object Arguments]");
        reveal_strlit("[object Array]");
        reveal_strlit("[object Error]");
        reveal_strlit("[object RegExp]");
        reveal_strlit("[object Object]");
    }
    let text: &str = match value {
        Value::BoundFunction(_) => "[object Function]",
        Value::BuiltinFunction(_) => "[object Function]",
        Value::ECMAScriptFunction(_) => "[object Function]",
        Value::Arguments(_) => "[object Arguments]",
        Value::Array(_) => "[object Array]",
        Value::Error(_) => "[object Error]",
        Value::RegExp(_) => "[object RegExp]",
        _ => "[object Object]",
    };
    agent.alloc_string_from_bytes(ascii_bytes(text))
}

/// The display text of each object kind.
pub open spec fn spec_static_repr_text(value: Value) -> Seq<char> {
    match value {
        Value::BoundFunction(_) => "[object Function]"@,
        Value::BuiltinFunction(_) => "[object Function]"@,
        Value::ECMAScriptFunction(_) => "[object Function]"@,
        Value::Arguments(_) => "[object Arguments]"@,
        Value::Array(_) => "[object Array]"@,
        Value::Error(_) => "[object Error]"@,
        Value::RegExp(_) => "[object RegExp]"@,
        _ => "[object Object]"@,
    }
}

impl Value {
    /// ToString of this value; see [`to_string`].
    pub fn to_string(self, agent: &mut Agent) -> (r: Result<JsString, JsError>)
        requires
            (self matches Value::String(h) ==> old(agent).heap.strings.valid(h)),
            (self matches Value::Number(h) ==> old(agent).heap.numbers.valid(h)),
            (self matches Value::BigInt(h) ==> old(agent).heap.bigints.valid(h)),
            !crate::type_conversion::spec_is_inexact_number(old(agent).heap, self),
            old(agent).heap.strings@.len() < u32::MAX,
            old(agent).heap.errors@.len() < u32::MAX,
        ensures
            r is Err <==> (self matches Value::Symbol(_) || self.spec_is_object()),
            r matches Ok(s) ==> spec_string_bytes(final(agent).heap, s) == spec_to_string_bytes(
                old(agent).heap,
                self,
            ),
    {
        to_string(agent, self)
    }

    /// ToString without running any collaborator code: this conversion never
    /// needs one, so the attempt always completes (`Some`) with the
    /// conversion's own result.
    pub fn try_to_string(self, agent: &mut Agent) -> (r: Option<Result<JsString, JsError>>)
        requires
            (self matches Value::String(h) ==> old(agent).heap.strings.valid(h)),
            (self matches Value::Number(h) ==> old(agent).heap.numbers.valid(h)),
            (self matches Value::BigInt(h) ==> old(agent).heap.bigints.valid(h)),
            !crate::type_conversion::spec_is_inexact_number(old(agent).heap, self),
            old(agent).heap.strings@.len() < u32::MAX,
            old(agent).heap.errors@.len() < u32::MAX,
        ensures
            r matches Some(inner) && ((inner is Err) <==> (self matches Value::Symbol(_)
                || self.spec_is_object())),
            r matches Some(inner) && (inner matches Ok(s) ==> spec_string_bytes(
                final(agent).heap,
                s,
            ) == spec_to_string_bytes(old(agent).heap, self)),
            final(agent).heap.strings@.len() <= old(agent).heap.strings@.len() + 1,
    {
        Some(to_string(agent, self))
    }

    /// A string conversion that never throws, for displaying exceptions: a
    /// symbol shows its descriptive string, an object its kind's fixed text.
    pub fn string_repr(self, agent: &mut Agent) -> (r: JsString)
        requires
            (self matches Value::String(h) ==> old(agent).heap.strings.valid(h)),
            (self matches Value::Number(h) ==> old(agent).heap.numbers.valid(h)),
            (self matches Value::BigInt(h) ==> old(agent).heap.bigints.valid(h)),
            (self matches Value::Symbol(s) ==> old(agent).heap.symbols.valid(s) && (
            match old(agent).heap.symbols.spec_get(s).descriptor {
                Some(JsString::Heap(h)) => old(agent).heap.strings.valid(h),
                _ => true,
            })),
            !crate::type_conversion::spec_is_inexact_number(old(agent).heap, self),
            old(agent).heap.strings@.len() + 2 < u32::MAX,
            old(agent).heap.errors@.len() < u32::MAX,
        ensures
            (self matches Value::Symbol(_) || self.spec_is_object()) || spec_string_bytes(
                final(agent).heap,
                r,
            ) == spec_to_string_bytes(old(agent).heap, self),
            // A symbol shows its descriptive string: `Symbol(description)`.
            (self matches Value::Symbol(sym) ==> spec_string_bytes(final(agent).heap, r)
                == spec_descriptive_bytes(old(agent).heap, sym)),
            self.spec_is_object() ==> spec_string_bytes(final(agent).heap, r)
                == spec_static_repr_text(self).map_values(|c: char| c as u8),
    {
        if let Value::Symbol(symbol) = self {
            return descriptive_string(agent, symbol);
        }
        match to_string(agent, self) {
            Ok(s) => s,
            _ => map_object_to_static_string_repr(agent, self),
        }
    }

    /// Like [`Value::string_repr`], without running any collaborator code.
    pub fn try_string_repr(self, agent: &mut Agent) -> (r: JsString)
        requires
            (self matches Value::String(h) ==> old(agent).heap.strings.valid(h)),
            (self matches Value::Number(h) ==> old(agent).heap.numbers.valid(h)),
            (self matches Value::BigInt(h) ==> old(agent).heap.bigints.valid(h)),
            (self matches Value::Symbol(s) ==> old(agent).heap.symbols.valid(s) && (
            match old(agent).heap.symbols.spec_get(s).descriptor {
                Some(JsString::Heap(h)) => old(agent).heap.strings.valid(h),
                _ => true,
            })),
            !crate::type_conversion::spec_is_inexact_number(old(agent).heap, self),
            old(agent).heap.strings@.len() + 2 < u32::MAX,
            old(agent).heap.errors@.len() < u32::MAX,
        ensures
            (self matches Value::Symbol(_) || self.spec_is_object()) || spec_string_bytes(
                final(agent).heap,
                r,
            ) == spec_to_string_bytes(old(agent).heap, self),
            // A symbol shows its descriptive string: `Symbol(description)`.
            (self matches Value::Symbol(sym) ==> spec_string_bytes(final(agent).heap, r)
                == spec_descriptive_bytes(old(agent).heap, sym)),
            self.spec_is_object() ==> spec_string_bytes(final(agent).heap, r)
                == spec_static_repr_text(self).map_values(|c: char| c as u8),
    {
        if let Value::Symbol(symbol) = self {
            return descriptive_string(agent, symbol);
        }
        match self.try_to_string(agent) {
            Some(Ok(s)) => s,
            _ => map_object_to_static_string_repr(agent, self),
        }
    }
}

} // verus!
