//! The runtime context: one explicit, mutable object threaded through every
//! core operation. All heap, execution-stack and realm state lives here — no
//! hidden globals.

use vstd::prelude::*;
use vstd::string::StringSliceAdditionalSpecFns;

verus! {

use crate::error::{ErrorHeapData, ExceptionType, JsError};
use crate::function::ECMAScriptFunction;
use crate::heap::Heap;
use crate::object::{Object, ObjectHeapData, OrdinaryObject};
use crate::small_string::SmallString;
use crate::string::{JsString, StringHeapData};
use crate::value::Value;

/// One frame of the execution-context stack.
#[derive(Debug, Clone, Copy)]
pub struct ExecutionContext {
    /// The function being evaluated, when there is one.
    pub function: Option<ECMAScriptFunction>,
}

/// Handles to the intrinsic prototype objects of the (single) realm, created
/// by the bootstrap before any user allocation.
#[derive(Debug, Clone, Copy)]
pub struct Intrinsics {
    pub object_prototype: OrdinaryObject,
    pub function_prototype: OrdinaryObject,
    pub array_prototype: OrdinaryObject,
    pub symbol_prototype: OrdinaryObject,
    pub bigint_prototype: OrdinaryObject,
    pub set_prototype: OrdinaryObject,
    pub generator_prototype: OrdinaryObject,
    pub async_generator_prototype: OrdinaryObject,
    pub promise_prototype: OrdinaryObject,
}

impl Intrinsics {
    /// The `%Object.prototype%` object.
    pub fn object_prototype(&self) -> (r: OrdinaryObject)
        ensures
            r == self.object_prototype,
    {
        self.object_prototype
    }

    /// The `%Array.prototype%` object.
    pub fn array_prototype(&self) -> (r: OrdinaryObject)
        ensures
            r == self.array_prototype,
    {
        self.array_prototype
    }

    /// The `%Symbol.prototype%` object.
    pub fn symbol_prototype(&self) -> (r: OrdinaryObject)
        ensures
            r == self.symbol_prototype,
    {
        self.symbol_prototype
    }

    /// The `%BigInt.prototype%` object.
    pub fn big_int_prototype(&self) -> (r: OrdinaryObject)
        ensures
            r == self.bigint_prototype,
    {
        self.bigint_prototype
    }

    /// The `%Set.prototype%` object.
    pub fn set_prototype(&self) -> (r: OrdinaryObject)
        ensures
            r == self.set_prototype,
    {
        self.set_prototype
    }

    /// The `%GeneratorFunction.prototype.prototype%` object.
    pub fn generator_prototype(&self) -> (r: OrdinaryObject)
        ensures
            r == self.generator_prototype,
    {
        self.generator_prototype
    }

    /// The `%AsyncGeneratorPrototype%` object.
    pub fn async_generator_prototype(&self) -> (r: OrdinaryObject)
        ensures
            r == self.async_generator_prototype,
    {
        self.async_generator_prototype
    }
}

/// The single realm: its intrinsic objects.
#[derive(Debug, Clone, Copy)]
pub struct Realm {
    pub intrinsics: Intrinsics,
}

impl Realm {
    /// The realm's intrinsic objects.
    pub fn intrinsics(&self) -> (r: &Intrinsics)
        ensures
            *r == self.intrinsics,
    {
        &self.intrinsics
    }
}

/// The runtime context: the heap, the execution-context stack, the realm,
/// and the externally held root slots.
#[derive(Debug)]
pub struct Agent {
    pub heap: Heap,
    pub execution_context_stack: Vec<ExecutionContext>,
    /// Externally held strong roots: everything here survives collection.
    pub globals: Vec<Value>,
    /// Externally held weak slots: a slot whose target is unreached becomes
    /// the no-handle sentinel (`None`) after a sweep.
    pub weak_refs: Vec<Option<Value>>,
    pub realm: Realm,
}

impl Agent {
    /// Bootstrap a runtime: an empty heap, then the intrinsic prototype
    /// objects, allocated before anything else.
    pub fn new() -> (r: Agent)
        ensures
            r.heap.objects@.len() == 9,
            forall|i: int| 0 <= i < 9 ==> r.heap.objects@[i] is Some,
            r.heap.strings@.len() == 0,
            r.heap.errors@.len() == 0,
            r.heap.symbols@.len() == 0,
            r.heap.builtin_functions@.len() == 0,
            r.heap.arrays@.len() == 0,
            r.heap.sets@.len() == 0,
            r.heap.generators@.len() == 0,
            r.heap.async_generators@.len() == 0,
            r.heap.executables@.len() == 0,
            r.heap.ecmascript_functions@.len() == 0,
            r.heap.promises@.len() == 0,
            r.execution_context_stack@.len() == 0,
            r.globals@.len() == 0,
            r.weak_refs@.len() == 0,
            r.realm.intrinsics.object_prototype.index() == 0,
    {
        let mut heap = Heap::new();
        let object_prototype = heap.objects.create(ObjectHeapData::new_with_prototype(None));
        let function_prototype = heap.objects.create(
            ObjectHeapData::new_with_prototype(Some(Object::Object(object_prototype))),
        );
        let array_prototype = heap.objects.create(
            ObjectHeapData::new_with_prototype(Some(Object::Object(object_prototype))),
        );
        let symbol_prototype = heap.objects.create(
            ObjectHeapData::new_with_prototype(Some(Object::Object(object_prototype))),
        );
        let bigint_prototype = heap.objects.create(
            ObjectHeapData::new_with_prototype(Some(Object::Object(object_prototype))),
        );
        let set_prototype = heap.objects.create(
            ObjectHeapData::new_with_prototype(Some(Object::Object(object_prototype))),
        );
        let generator_prototype = heap.objects.create(
            ObjectHeapData::new_with_prototype(Some(Object::Object(object_prototype))),
        );
        let async_generator_prototype = heap.objects.create(
            ObjectHeapData::new_with_prototype(Some(Object::Object(object_prototype))),
        );
        let promise_prototype = heap.objects.create(
            ObjectHeapData::new_with_prototype(Some(Object::Object(object_prototype))),
        );
        Agent {
            heap,
            execution_context_stack: Vec::new(),
            globals: Vec::new(),
            weak_refs: Vec::new(),
            realm: Realm {
                intrinsics: Intrinsics {
                    object_prototype,
                    function_prototype,
                    array_prototype,
                    symbol_prototype,
                    bigint_prototype,
                    set_prototype,
                    generator_prototype,
                    async_generator_prototype,
                    promise_prototype,
                },
            },
        }
    }

    /// The current realm.
    pub fn current_realm(&self) -> (r: &Realm)
        ensures
            *r == self.realm,
    {
        &self.realm
    }

    /// Push a frame onto the execution-context stack.
    pub fn push_execution_context(&mut self, context: ExecutionContext)
        ensures
            final(self).execution_context_stack@ == old(self).execution_context_stack@.push(
                context,
            ),
            final(self).heap == old(self).heap,
            final(self).globals == old(self).globals,
            final(self).weak_refs == old(self).weak_refs,
            final(self).realm == old(self).realm,
    {
        self.execution_context_stack.push(context);
    }

    /// Pop the running frame, if any.
    pub fn pop_execution_context(&mut self) -> (r: Option<ExecutionContext>)
        ensures
            old(self).execution_context_stack@.len() == 0 ==> r is None && final(self).execution_context_stack@ == old(self).execution_context_stack@,
            old(self).execution_context_stack@.len() > 0 ==> r == Some(
                old(self).execution_context_stack@.last(),
            ) && final(self).execution_context_stack@ == old(
                self,
            ).execution_context_stack@.drop_last(),
            final(self).heap == old(self).heap,
            final(self).globals == old(self).globals,
            final(self).weak_refs == old(self).weak_refs,
            final(self).realm == old(self).realm,
    {
        self.execution_context_stack.pop()
    }

    /// The running frame: the top of the execution-context stack.
    pub fn running_execution_context(&self) -> (r: Option<&ExecutionContext>)
        ensures
            self.execution_context_stack@.len() == 0 ==> r is None,
            self.execution_context_stack@.len() > 0 ==> (r matches Some(c) && *c
                == self.execution_context_stack@.last()),
    {
        self.execution_context_stack.last()
    }

    /// Allocate a runtime string for the given content bytes: inline when
    /// seven or fewer sentinel-free bytes, heap-resident otherwise.
    pub fn alloc_string_from_bytes(&mut self, bytes: Vec<u8>) -> (r: JsString)
        requires
            old(self).heap.strings@.len() < u32::MAX,
        ensures
            crate::agent::spec_string_bytes(final(self).heap, r) == bytes@,
            // The split is by size and content alone: inline exactly when at
            // most seven sentinel-free bytes.
            (r is Small <==> (bytes@.len() <= 7 && (forall|i: int|
                0 <= i < bytes@.len() ==> bytes@[i] != 0xFF))),
            match r {
                JsString::Small(_) => final(self).heap == old(self).heap,
                JsString::Heap(h) => {
                    &&& final(self).heap.strings@ == old(self).heap.strings@.push(
                        Some(StringHeapData { bytes }),
                    )
                    &&& h.index() == old(self).heap.strings@.len()
                    &&& final(self).heap == Heap {
                        strings: final(self).heap.strings,
                        ..old(self).heap
                    }
                },
            },
            final(self).heap.strings@.len() <= old(self).heap.strings@.len() + 1,
            spec_strings_preserved(old(self).heap, final(self).heap),
            final(self).execution_context_stack == old(self).execution_context_stack,
            final(self).globals == old(self).globals,
            final(self).weak_refs == old(self).weak_refs,
            final(self).realm == old(self).realm,
    {
        if bytes.len() <= 7 && !contains_sentinel(bytes.as_slice()) {
            let small = SmallString::from_bytes(bytes.as_slice());
            return JsString::Small(small);
        }
        let h = self.heap.strings.create(StringHeapData { bytes });
        JsString::Heap(h)
    }

    /// Throw a language-level exception: allocate an error record carrying
    /// the message and wrap its value.
    pub fn throw_exception(&mut self, kind: ExceptionType, message: &str) -> (r: JsError)
        requires
            old(self).heap.strings@.len() < u32::MAX,
            old(self).heap.errors@.len() < u32::MAX,
        ensures
            r.spec_value() matches Value::Error(e) && final(self).heap.errors.valid(e) && final(self).heap.errors.spec_get(e).kind == kind,
            final(self).heap.errors@.len() == old(self).heap.errors@.len() + 1,
            final(self).heap.strings@.len() <= old(self).heap.strings@.len() + 1,
            spec_strings_preserved(old(self).heap, final(self).heap),
            final(self).heap == (Heap {
                errors: final(self).heap.errors,
                strings: final(self).heap.strings,
                ..old(self).heap
            }),
            final(self).execution_context_stack == old(self).execution_context_stack,
            final(self).globals == old(self).globals,
            final(self).weak_refs == old(self).weak_refs,
            final(self).realm == old(self).realm,
    {
        let bytes = crate::agent::str_to_bytes(message);
        let message_string = self.alloc_string_from_bytes(bytes);
        let data = ErrorHeapData::new(kind, Some(message_string), None);
        let e = self.heap.errors.create(data);
        JsError::new(Value::Error(e))
    }
}

/// Existing string slots survive unchanged: the arena only grew.
pub open spec fn spec_strings_preserved(a: Heap, b: Heap) -> bool {
    &&& b.strings@.len() >= a.strings@.len()
    &&& forall|i: int| 0 <= i < a.strings@.len() ==> b.strings@[i] == a.strings@[i]
}

/// The content bytes a runtime string denotes, under a given heap. An
/// out-of-arena heap handle denotes the empty sequence.
pub open spec fn spec_string_bytes(heap: Heap, s: JsString) -> Seq<u8> {
    match s {
        JsString::Small(small) => small@,
        JsString::Heap(h) => if heap.strings.valid(h) {
            heap.strings.spec_get(h).bytes@
        } else {
            Seq::empty()
        },
    }
}

/// Does the byte row hold the small-string sentinel byte anywhere?
fn contains_sentinel(bytes: &[u8]) -> (r: bool)
    ensures
        r == exists|i: int| 0 <= i < bytes@.len() && bytes@[i] == 0xFF,
{
    let n = bytes.len();
    let mut i: usize = 0;
    while i < n
        invariant
            n == bytes@.len(),
            0 <= i <= n,
            forall|j: int| 0 <= j < i ==> bytes@[j] != 0xFF,
        decreases n - i,
    {
        if bytes[i] == 0xFF {
            return true;
        }
        i += 1;
    }
    false
}

/// Copy a string's UTF-8 bytes into an owned vector.
pub fn str_to_bytes(s: &str) -> (r: Vec<u8>)
    ensures
        r@ == s.spec_bytes(),
{
    let bytes = s.as_bytes();
    vstd::slice::slice_to_vec(bytes)
}

} // verus!
