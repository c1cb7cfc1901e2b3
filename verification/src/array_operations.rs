//! Array abstract operations: creation and the length-setting protocol.

use vstd::prelude::*;

verus! {

use crate::agent::Agent;
use crate::array::{Array, ArrayHeapData, ElementsVector};
use crate::error::{ExceptionType, JsError};
use crate::heap::Heap;
use crate::number::Number;
use crate::object::{Object, ObjectHeapData, OrdinaryObject, PropertyDescriptor};
use crate::type_conversion::{spec_is_inexact_number, spec_to_number_exact, to_number, to_uint32};
use crate::value::Value;

/// The largest array length: one below two to the 32nd.
pub const MAX_ARRAY_LENGTH: u32 = 4294967295;

/// Does the object reference denote the realm's `%Array.prototype%` slot?
pub open spec fn spec_is_array_prototype(agent: Agent, p: Object) -> bool {
    p matches Object::Object(h) && h.index() == agent.realm.intrinsics.array_prototype.index()
}

/// Create an array of the given length, with room for `capacity` elements
/// and an optional explicit prototype.
///
/// A length above the largest array length is a `RangeError`. A prototype
/// equal to `%Array.prototype%` is the default and allocates no backing
/// object; any other prototype does.
pub fn array_create(agent: &mut Agent, length: usize, capacity: usize, proto: Option<Object>) -> (r:
    Result<Array, JsError>)
    requires
        old(agent).heap.arrays@.len() < u32::MAX,
        old(agent).heap.objects@.len() < u32::MAX,
        old(agent).heap.strings@.len() < u32::MAX,
        old(agent).heap.errors@.len() < u32::MAX,
    ensures
        (r is Err) <==> length > MAX_ARRAY_LENGTH,
        r matches Ok(a) ==> {
            &&& a.0.index() == old(agent).heap.arrays@.len()
            &&& final(agent).heap.arrays.valid(a.0)
            &&& {
                let record = final(agent).heap.arrays.spec_get(a.0);
                &&& record.elements.len == length
                &&& record.elements.len_writable
                &&& record.elements.values@.len() == vstd::math::max(
                    length as int,
                    vstd::math::min(capacity as int, MAX_ARRAY_LENGTH as int),
                )
                &&& (forall|i: int|
                    0 <= i < record.elements.values@.len() ==> record.elements.values@[i] is None)
                &&& (match proto {
                    None => record.object_index is None,
                    Some(p) => if spec_is_array_prototype(*old(agent), p) {
                        record.object_index is None
                    } else {
                        record.object_index matches Some(o) && final(agent).heap.objects.valid(o)
                            && final(agent).heap.objects.spec_get(o).prototype == Some(p)
                    },
                })
            }
        },
{
    if length > MAX_ARRAY_LENGTH as usize {
        return Err(agent.throw_exception(ExceptionType::RangeError, "invalid array length"));
    }
    let object_index: Option<OrdinaryObject> = match proto {
        Some(p) => {
            let is_default = match p {
                Object::Object(h) => {
                    let d = agent.realm.intrinsics.array_prototype;
                    h.into_u32_index() == d.into_u32_index()
                },
                _ => false,
            };
            if is_default {
                None
            } else {
                let o = agent.heap.objects.create(ObjectHeapData::new_with_prototype(Some(p)));
                Some(o)
            }
        },
        None => None,
    };
    // The capacity is an allocation hint; it is clamped to the largest
    // array length.
    let capacity_hint: u32 = if capacity > MAX_ARRAY_LENGTH as usize {
        MAX_ARRAY_LENGTH
    } else {
        capacity as u32
    };
    let elements = ElementsVector::with_length_and_capacity(length as u32, capacity_hint);
    let data = ArrayHeapData { object_index, elements };
    let handle = agent.heap.arrays.create(data);
    Ok(Array(handle))
}

/// Does the freshly converted 32-bit length read back as the same number the
/// value converted to — i.e. was the value an exact array length?
fn length_matches(new_len: u32, number_len: Number) -> (r: bool)
    ensures
        r == (number_len matches Number::Integer(i) && i.value() == new_len),
{
    match number_len {
        Number::Integer(i) => i.into_i64() == new_len as i64,
        _ => false,
    }
}

/// Set an array's `length` through a property descriptor, shrinking or
/// growing the element store.
///
/// Without a new value, only the writability of the length may change. With
/// one, the value must convert to an exact 32-bit length or the call is a
/// `RangeError`; a non-writable length refuses any change, and so does a
/// descriptor asking for a configurable or enumerable length.
pub fn array_set_length(agent: &mut Agent, a: Array, desc: PropertyDescriptor) -> (r: Result<
    bool,
    JsError,
>)
    requires
        old(agent).heap.arrays.valid(a.0),
        old(agent).heap.arrays.spec_get(a.0).elements.wf(),
        (match desc.value {
            Some(v) => {
                &&& (v matches Value::String(h) ==> old(agent).heap.strings.valid(h))
                &&& (v matches Value::Number(h) ==> old(agent).heap.numbers.valid(h))
                &&& !spec_is_inexact_number(old(agent).heap, v)
            },
            None => true,
        }),
        old(agent).heap.strings@.len() < u32::MAX,
        old(agent).heap.errors@.len() < u32::MAX,
    ensures
        final(agent).heap.arrays.valid(a.0),
        final(agent).heap.arrays.spec_get(a.0).elements.wf(),
        (match desc.value {
            None => r == Ok::<bool, JsError>(true) && {
                let record = final(agent).heap.arrays.spec_get(a.0);
                let old_record = old(agent).heap.arrays.spec_get(a.0);
                &&& record.elements.len == old_record.elements.len
                &&& record.elements.len_writable == (old_record.elements.len_writable && (
                desc.writable is None || desc.writable == Some(true)))
            },
            Some(v) => {
                let old_record = old(agent).heap.arrays.spec_get(a.0);
                let record = final(agent).heap.arrays.spec_get(a.0);
                if v.spec_is_bigint() || v matches Value::Symbol(_) || v.spec_is_object() {
                    r is Err
                } else if !(spec_to_number_exact(old(agent).heap, v) matches Some(n) && 0 <= n
                    <= MAX_ARRAY_LENGTH) {
                    r is Err && record.elements.len == old_record.elements.len
                } else if !old_record.elements.len_writable {
                    r == Ok::<bool, JsError>(false) && record.elements.len
                        == old_record.elements.len
                } else if desc.configurable == Some(true) || desc.enumerable == Some(true) {
                    r == Ok::<bool, JsError>(false) && record.elements.len
                        == old_record.elements.len
                } else if spec_to_number_exact(old(agent).heap, v)->Some_0
                    >= old_record.elements.len {
                    let n = spec_to_number_exact(old(agent).heap, v)->Some_0;
                    &&& r == Ok::<bool, JsError>(true)
                    &&& record.elements.len == n
                    &&& record.elements.len_writable == (desc.writable is None || desc.writable
                        == Some(true))
                } else {
                    let n = spec_to_number_exact(old(agent).heap, v)->Some_0;
                    &&& r == Ok::<bool, JsError>(true)
                    &&& record.elements.len == n
                    &&& record.elements.len_writable == (desc.writable is None || desc.writable
                        == Some(true))
                    &&& (forall|i: int|
                        n <= i < record.elements.values@.len() ==> record.elements.values@[i]
                            is None)
                }
            },
        }),
{
    let desc_value = match desc.value {
        None => {
            // Only the length's attributes change.
            let record = agent.heap.arrays.get_mut(a.0);
            if matches!(desc.writable, Some(false)) {
                record.elements.len_writable = false;
            }
            return Ok(true);
        },
        Some(v) => v,
    };
    let new_len_writable = !matches!(desc.writable, Some(false));
    let new_len = match to_uint32(agent, desc_value) {
        Ok(n) => n,
        Err(e) => {
            return Err(e);
        },
    };
    let number_len = match to_number(agent, desc_value) {
        Ok(n) => n,
        Err(e) => {
            return Err(e);
        },
    };
    if !length_matches(new_len, number_len) {
        return Err(agent.throw_exception(ExceptionType::RangeError, "invalid array length"));
    }
    let record = agent.heap.arrays.get_mut(a.0);
    let old_len = record.elements.len;
    let old_len_writable = record.elements.len_writable;
    if !old_len_writable {
        return Ok(false);
    }
    if matches!(desc.configurable, Some(true)) || matches!(desc.enumerable, Some(true)) {
        return Ok(false);
    }
    if new_len >= old_len {
        let record = agent.heap.arrays.get_mut(a.0);
        while record.elements.values.len() < new_len as usize
            invariant
                true,
            decreases new_len as int - record.elements.values@.len(),
        {
            record.elements.values.push(None);
        }
        record.elements.len = new_len;
        record.elements.len_writable = new_len_writable;
        return Ok(true);
    }
    // Shrinking: clear every slot at or past the new length.
    let record = agent.heap.arrays.get_mut(a.0);
    let mut i: usize = new_len as usize;
    let n = record.elements.values.len();
    while i < n
        invariant
            new_len <= i <= n,
            n == record.elements.values@.len(),
            record.elements.len == old(agent).heap.arrays.spec_get(a.0).elements.len,
            record.elements.len_writable == old(agent).heap.arrays.spec_get(
                a.0,
            ).elements.len_writable,
            forall|j: int| new_len <= j < i ==> record.elements.values@[j] is None,
        decreases n - i,
    {
        record.elements.values[i] = None;
        i += 1;
    }
    record.elements.len = new_len;
    record.elements.len_writable = new_len_writable;
    Ok(true)
}

} // verus!
