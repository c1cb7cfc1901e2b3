//! The sweep/compaction phase of the garbage collector.
//!
//! For each kind, records never marked are dropped and the survivors shift
//! down to stay contiguous. A per-kind compaction table records, for each
//! original slot, how many slots before it were removed, so every surviving
//! handle is rewritten to `old slot - removed before it`. A strong handle to
//! an unmarked record cannot arise — the mark phase is closed over edges — and
//! a weak handle to one is cleared to the no-handle sentinel.

use vstd::prelude::*;

verus! {

use std::collections::VecDeque;

use crate::agent::{Agent, ExecutionContext, Intrinsics};
use crate::array::{ArrayHeapData, ArrayIndex, ElementsVector};
use crate::async_generator::{
    AsyncGeneratorHeapData, AsyncGeneratorIndex, AsyncGeneratorRequest,
    AsyncGeneratorRequestCompletion, AsyncGeneratorState,
};
use crate::bigint::{BigIntHeapData, HeapBigInt};
use crate::date::{Date, DateHeapData};
use crate::error::{Error, ErrorHeapData, JsError};
use crate::function::{
    BoundFunction, BoundFunctionHeapData, BuiltinFunction, BuiltinFunctionHeapData,
    ECMAScriptFunction, ECMAScriptFunctionHeapData,
};
use crate::gc::{
    count_false, HeapKind, Marks, Node, WorkQueues, spec_allocated, spec_allocated_set,
    spec_heap_edges, spec_heap_wf, spec_reachable, value_nodes, value_node, js_string_node,
    key_node, node_set, opt_ordinary_nodes, opt_string_nodes, opt_value_nodes,
    opt_executable_nodes, object_ref_node, entry_nodes, seq_value_nodes, seq_opt_value_nodes,
    seq_entry_nodes, seq_request_nodes, request_nodes, vm_edges, context_edges,
    suspended_generator_edges, array_edges, async_generator_edges, bound_function_edges,
    builtin_function_edges, date_edges, ecmascript_function_edges, error_edges, executable_edges,
    generator_edges, object_data_edges, primitive_object_edges, promise_edges, regexp_edges,
    set_edges, symbol_edges, array_node, async_generator_node, bigint_node, bound_function_node,
    builtin_function_node, date_node, ecmascript_function_node, error_node, executable_node,
    generator_node, number_node, object_node, primitive_object_node, promise_node, regexp_node,
    set_node, string_node, symbol_node, mark,
};
use crate::generator::{Generator, GeneratorHeapData, GeneratorState, SuspendedGeneratorState};
use crate::heap::Heap;
use crate::indexes::BaseIndex;
use crate::number::{HeapNumber, NumberHeapData};
use crate::object::{
    Object, ObjectEntry, ObjectHeapData, OrdinaryObject, PropertyKey,
};
use crate::primitive_object::{PrimitiveObject, PrimitiveObjectData, PrimitiveObjectHeapData};
use crate::promise::{Promise, PromiseCapability, PromiseHeapData, PromiseState};
use crate::regexp::{RegExp, RegExpHeapData};
use crate::set_object::{SetHeapData, SetIndex, SetObject};
use crate::string::{HeapString, JsString, StringHeapData};
use crate::symbol::{Symbol, SymbolHeapData};
use crate::value::Value;
use crate::vm::{Executable, ExecutableHeapData, SuspendedVm};

/// The unmarked count of a row never exceeds its length.
pub proof fn lemma_count_false_bounds(s: Seq<bool>)
    ensures
        0 <= count_false(s) <= s.len(),
    decreases s.len(),
{
    if s.len() > 0 {
        lemma_count_false_bounds(s.drop_last());
    }
}

/// One more slot raises the unmarked count of a prefix by one exactly when
/// that slot is unmarked.
pub proof fn lemma_count_false_take(s: Seq<bool>, i: int)
    requires
        0 <= i < s.len(),
    ensures
        count_false(s.take(i + 1)) == count_false(s.take(i)) + if s[i] {
            0int
        } else {
            1int
        },
{
    assert(s.take(i + 1).drop_last() =~= s.take(i));
    assert(s.take(i + 1).last() == s[i]);
}


/// The per-kind compaction tables of one collection pass: the final mark
/// bits, and for each original slot how many slots before it were removed.
#[derive(Debug)]
pub struct CompactionLists {
    pub marks: Marks,
    pub arrays: Vec<u32>,
    pub async_generators: Vec<u32>,
    pub bigints: Vec<u32>,
    pub bound_functions: Vec<u32>,
    pub builtin_functions: Vec<u32>,
    pub dates: Vec<u32>,
    pub ecmascript_functions: Vec<u32>,
    pub errors: Vec<u32>,
    pub executables: Vec<u32>,
    pub generators: Vec<u32>,
    pub numbers: Vec<u32>,
    pub objects: Vec<u32>,
    pub primitive_objects: Vec<u32>,
    pub promises: Vec<u32>,
    pub regexps: Vec<u32>,
    pub sets: Vec<u32>,
    pub strings: Vec<u32>,
    pub symbols: Vec<u32>,
}

/// The mark row of one kind.
pub open spec fn row_of(m: Marks, kind: HeapKind) -> Seq<bool> {
    match kind {
        HeapKind::Array => m.arrays@,
        HeapKind::AsyncGenerator => m.async_generators@,
        HeapKind::BigInt => m.bigints@,
        HeapKind::BoundFunction => m.bound_functions@,
        HeapKind::BuiltinFunction => m.builtin_functions@,
        HeapKind::Date => m.dates@,
        HeapKind::EcmascriptFunction => m.ecmascript_functions@,
        HeapKind::Error => m.errors@,
        HeapKind::Executable => m.executables@,
        HeapKind::Generator => m.generators@,
        HeapKind::Number => m.numbers@,
        HeapKind::Object => m.objects@,
        HeapKind::PrimitiveObject => m.primitive_objects@,
        HeapKind::Promise => m.promises@,
        HeapKind::RegExp => m.regexps@,
        HeapKind::SetObject => m.sets@,
        HeapKind::StringData => m.strings@,
        HeapKind::Symbol => m.symbols@,
    }
}

/// The slot a surviving handle of the given kind is rewritten to.
pub open spec fn spec_shift_idx(c: CompactionLists, kind: HeapKind, idx: nat) -> int {
    idx - count_false(row_of(c.marks, kind).take(idx as int))
}

impl CompactionLists {
    /// The shift row of one kind.
    pub open spec fn shift_row(self, kind: HeapKind) -> Seq<u32> {
        match kind {
            HeapKind::Array => self.arrays@,
            HeapKind::AsyncGenerator => self.async_generators@,
            HeapKind::BigInt => self.bigints@,
            HeapKind::BoundFunction => self.bound_functions@,
            HeapKind::BuiltinFunction => self.builtin_functions@,
            HeapKind::Date => self.dates@,
            HeapKind::EcmascriptFunction => self.ecmascript_functions@,
            HeapKind::Error => self.errors@,
            HeapKind::Executable => self.executables@,
            HeapKind::Generator => self.generators@,
            HeapKind::Number => self.numbers@,
            HeapKind::Object => self.objects@,
            HeapKind::PrimitiveObject => self.primitive_objects@,
            HeapKind::Promise => self.promises@,
            HeapKind::RegExp => self.regexps@,
            HeapKind::SetObject => self.sets@,
            HeapKind::StringData => self.strings@,
            HeapKind::Symbol => self.symbols@,
        }
    }

    /// Every shift row matches its mark row: same length, below the handle
    /// bound, and each slot holds the number of unmarked slots before it.
    pub open spec fn wf(self) -> bool {
        forall|kind: HeapKind|
            {
                &&& (#[trigger] self.shift_row(kind)).len() == row_of(self.marks, kind).len()
                &&& row_of(self.marks, kind).len() < u32::MAX
                &&& forall|i: int|
                    0 <= i < self.shift_row(kind).len() ==> self.shift_row(kind)[i]
                        == count_false(row_of(self.marks, kind).take(i))
            }
    }
}

/// The removed-before table of one mark row.
fn build_shifts(row: &Vec<bool>) -> (r: Vec<u32>)
    requires
        row@.len() < u32::MAX,
    ensures
        r@.len() == row@.len(),
        forall|i: int| 0 <= i < r@.len() ==> r@[i] == count_false(row@.take(i)),
{
    let n = row.len();
    let mut r: Vec<u32> = Vec::new();
    let mut removed: u32 = 0;
    let mut i: usize = 0;
    proof {
        assert(row@.take(0) =~= Seq::<bool>::empty());
    }
    while i < n
        invariant
            n == row@.len() < u32::MAX,
            0 <= i <= n,
            r@.len() == i,
            removed == count_false(row@.take(i as int)),
            0 <= removed <= i,
            forall|j: int| 0 <= j < i ==> r@[j] == count_false(row@.take(j)),
        decreases n - i,
    {
        proof {
            lemma_count_false_take(row@, i as int);
        }
        r.push(removed);
        if !row[i] {
            removed = removed + 1;
        }
        i += 1;
    }
    r
}

impl CompactionLists {
    /// Build the compaction tables for the final marks of a pass.
    pub fn build(marks: Marks) -> (r: Self)
        requires
            marks.arrays@.len() < u32::MAX,
            marks.async_generators@.len() < u32::MAX,
            marks.bigints@.len() < u32::MAX,
            marks.bound_functions@.len() < u32::MAX,
            marks.builtin_functions@.len() < u32::MAX,
            marks.dates@.len() < u32::MAX,
            marks.ecmascript_functions@.len() < u32::MAX,
            marks.errors@.len() < u32::MAX,
            marks.executables@.len() < u32::MAX,
            marks.generators@.len() < u32::MAX,
            marks.numbers@.len() < u32::MAX,
            marks.objects@.len() < u32::MAX,
            marks.primitive_objects@.len() < u32::MAX,
            marks.promises@.len() < u32::MAX,
            marks.regexps@.len() < u32::MAX,
            marks.sets@.len() < u32::MAX,
            marks.strings@.len() < u32::MAX,
            marks.symbols@.len() < u32::MAX,
        ensures
            r.marks == marks,
            r.wf(),
    {
        let arrays = build_shifts(&marks.arrays);
        let async_generators = build_shifts(&marks.async_generators);
        let bigints = build_shifts(&marks.bigints);
        let bound_functions = build_shifts(&marks.bound_functions);
        let builtin_functions = build_shifts(&marks.builtin_functions);
        let dates = build_shifts(&marks.dates);
        let ecmascript_functions = build_shifts(&marks.ecmascript_functions);
        let errors = build_shifts(&marks.errors);
        let executables = build_shifts(&marks.executables);
        let generators = build_shifts(&marks.generators);
        let numbers = build_shifts(&marks.numbers);
        let objects = build_shifts(&marks.objects);
        let primitive_objects = build_shifts(&marks.primitive_objects);
        let promises = build_shifts(&marks.promises);
        let regexps = build_shifts(&marks.regexps);
        let sets = build_shifts(&marks.sets);
        let strings = build_shifts(&marks.strings);
        let symbols = build_shifts(&marks.symbols);
        let r = CompactionLists {
            marks,
            arrays,
            async_generators,
            bigints,
            bound_functions,
            builtin_functions,
            dates,
            ecmascript_functions,
            errors,
            executables,
            generators,
            numbers,
            objects,
            primitive_objects,
            promises,
            regexps,
            sets,
            strings,
            symbols,
        };
        proof {
            assert forall|kind: HeapKind|
                {
                    &&& (#[trigger] r.shift_row(kind)).len() == row_of(r.marks, kind).len()
                    &&& row_of(r.marks, kind).len() < u32::MAX
                    &&& forall|i: int|
                        0 <= i < r.shift_row(kind).len() ==> r.shift_row(kind)[i] == count_false(
                            row_of(r.marks, kind).take(i),
                        )
                } by {
                match kind {
                    HeapKind::Array => {},
                    HeapKind::AsyncGenerator => {},
                    HeapKind::BigInt => {},
                    HeapKind::BoundFunction => {},
                    HeapKind::BuiltinFunction => {},
                    HeapKind::Date => {},
                    HeapKind::EcmascriptFunction => {},
                    HeapKind::Error => {},
                    HeapKind::Executable => {},
                    HeapKind::Generator => {},
                    HeapKind::Number => {},
                    HeapKind::Object => {},
                    HeapKind::PrimitiveObject => {},
                    HeapKind::Promise => {},
                    HeapKind::RegExp => {},
                    HeapKind::SetObject => {},
                    HeapKind::StringData => {},
                    HeapKind::Symbol => {},
                }
            }
        }
        r
    }

    /// Rewrite a surviving handle of this kind.
    pub fn shift_arrays(&self, h: ArrayIndex) -> (r: ArrayIndex)
        requires
            self.wf(),
            self.marks.spec_marked(array_node(h)),
        ensures
            r.index() == spec_shift_idx(*self, HeapKind::Array, h.index()),
    {
        let i = h.into_index();
        proof {
            assert(self.shift_row(HeapKind::Array) == self.arrays@);
            assert(row_of(self.marks, HeapKind::Array) == self.marks.arrays@);
            assert(self.arrays@[i as int] == count_false(self.marks.arrays@.take(i as int)));
            lemma_count_false_bounds(self.marks.arrays@.take(i as int));
            assert(self.marks.arrays@.take(i as int).len() == i);
        }
        let s = self.arrays[i];
        BaseIndex::from_index(i - s as usize)
    }

    /// Rewrite a surviving handle of this kind.
    pub fn shift_async_generators(&self, h: AsyncGeneratorIndex) -> (r: AsyncGeneratorIndex)
        requires
            self.wf(),
            self.marks.spec_marked(async_generator_node(h)),
        ensures
            r.index() == spec_shift_idx(*self, HeapKind::AsyncGenerator, h.index()),
    {
        let i = h.into_index();
        proof {
            assert(self.shift_row(HeapKind::AsyncGenerator) == self.async_generators@);
            assert(row_of(self.marks, HeapKind::AsyncGenerator) == self.marks.async_generators@);
            assert(self.async_generators@[i as int] == count_false(self.marks.async_generators@.take(i as int)));
            lemma_count_false_bounds(self.marks.async_generators@.take(i as int));
            assert(self.marks.async_generators@.take(i as int).len() == i);
        }
        let s = self.async_generators[i];
        BaseIndex::from_index(i - s as usize)
    }

    /// Rewrite a surviving handle of this kind.
    pub fn shift_bigints(&self, h: HeapBigInt) -> (r: HeapBigInt)
        requires
            self.wf(),
            self.marks.spec_marked(bigint_node(h)),
        ensures
            r.index() == spec_shift_idx(*self, HeapKind::BigInt, h.index()),
    {
        let i = h.into_index();
        proof {
            assert(self.shift_row(HeapKind::BigInt) == self.bigints@);
            assert(row_of(self.marks, HeapKind::BigInt) == self.marks.bigints@);
            assert(self.bigints@[i as int] == count_false(self.marks.bigints@.take(i as int)));
            lemma_count_false_bounds(self.marks.bigints@.take(i as int));
            assert(self.marks.bigints@.take(i as int).len() == i);
        }
        let s = self.bigints[i];
        BaseIndex::from_index(i - s as usize)
    }

    /// Rewrite a surviving handle of this kind.
    pub fn shift_bound_functions(&self, h: BoundFunction) -> (r: BoundFunction)
        requires
            self.wf(),
            self.marks.spec_marked(bound_function_node(h)),
        ensures
            r.index() == spec_shift_idx(*self, HeapKind::BoundFunction, h.index()),
    {
        let i = h.into_index();
        proof {
            assert(self.shift_row(HeapKind::BoundFunction) == self.bound_functions@);
            assert(row_of(self.marks, HeapKind::BoundFunction) == self.marks.bound_functions@);
            assert(self.bound_functions@[i as int] == count_false(self.marks.bound_functions@.take(i as int)));
            lemma_count_false_bounds(self.marks.bound_functions@.take(i as int));
            assert(self.marks.bound_functions@.take(i as int).len() == i);
        }
        let s = self.bound_functions[i];
        BaseIndex::from_index(i - s as usize)
    }

    /// Rewrite a surviving handle of this kind.
    pub fn shift_builtin_functions(&self, h: BuiltinFunction) -> (r: BuiltinFunction)
        requires
            self.wf(),
            self.marks.spec_marked(builtin_function_node(h)),
        ensures
            r.index() == spec_shift_idx(*self, HeapKind::BuiltinFunction, h.index()),
    {
        let i = h.into_index();
        proof {
            assert(self.shift_row(HeapKind::BuiltinFunction) == self.builtin_functions@);
            assert(row_of(self.marks, HeapKind::BuiltinFunction) == self.marks.builtin_functions@);
            assert(self.builtin_functions@[i as int] == count_false(self.marks.builtin_functions@.take(i as int)));
            lemma_count_false_bounds(self.marks.builtin_functions@.take(i as int));
            assert(self.marks.builtin_functions@.take(i as int).len() == i);
        }
        let s = self.builtin_functions[i];
        BaseIndex::from_index(i - s as usize)
    }

    /// Rewrite a surviving handle of this kind.
    pub fn shift_dates(&self, h: Date) -> (r: Date)
        requires
            self.wf(),
            self.marks.spec_marked(date_node(h)),
        ensures
            r.index() == spec_shift_idx(*self, HeapKind::Date, h.index()),
    {
        let i = h.into_index();
        proof {
            assert(self.shift_row(HeapKind::Date) == self.dates@);
            assert(row_of(self.marks, HeapKind::Date) == self.marks.dates@);
            assert(self.dates@[i as int] == count_false(self.marks.dates@.take(i as int)));
            lemma_count_false_bounds(self.marks.dates@.take(i as int));
            assert(self.marks.dates@.take(i as int).len() == i);
        }
        let s = self.dates[i];
        BaseIndex::from_index(i - s as usize)
    }

    /// Rewrite a surviving handle of this kind.
    pub fn shift_ecmascript_functions(&self, h: ECMAScriptFunction) -> (r: ECMAScriptFunction)
        requires
            self.wf(),
            self.marks.spec_marked(ecmascript_function_node(h)),
        ensures
            r.index() == spec_shift_idx(*self, HeapKind::EcmascriptFunction, h.index()),
    {
        let i = h.into_index();
        proof {
            assert(self.shift_row(HeapKind::EcmascriptFunction) == self.ecmascript_functions@);
            assert(row_of(self.marks, HeapKind::EcmascriptFunction) == self.marks.ecmascript_functions@);
            assert(self.ecmascript_functions@[i as int] == count_false(self.marks.ecmascript_functions@.take(i as int)));
            lemma_count_false_bounds(self.marks.ecmascript_functions@.take(i as int));
            assert(self.marks.ecmascript_functions@.take(i as int).len() == i);
        }
        let s = self.ecmascript_functions[i];
        BaseIndex::from_index(i - s as usize)
    }

    /// Rewrite a surviving handle of this kind.
    pub fn shift_errors(&self, h: Error) -> (r: Error)
        requires
            self.wf(),
            self.marks.spec_marked(error_node(h)),
        ensures
            r.index() == spec_shift_idx(*self, HeapKind::Error, h.index()),
    {
        let i = h.into_index();
        proof {
            assert(self.shift_row(HeapKind::Error) == self.errors@);
            assert(row_of(self.marks, HeapKind::Error) == self.marks.errors@);
            assert(self.errors@[i as int] == count_false(self.marks.errors@.take(i as int)));
            lemma_count_false_bounds(self.marks.errors@.take(i as int));
            assert(self.marks.errors@.take(i as int).len() == i);
        }
        let s = self.errors[i];
        BaseIndex::from_index(i - s as usize)
    }

    /// Rewrite a surviving handle of this kind.
    pub fn shift_executables(&self, h: Executable) -> (r: Executable)
        requires
            self.wf(),
            self.marks.spec_marked(executable_node(h)),
        ensures
            r.index() == spec_shift_idx(*self, HeapKind::Executable, h.index()),
    {
        let i = h.into_index();
        proof {
            assert(self.shift_row(HeapKind::Executable) == self.executables@);
            assert(row_of(self.marks, HeapKind::Executable) == self.marks.executables@);
            assert(self.executables@[i as int] == count_false(self.marks.executables@.take(i as int)));
            lemma_count_false_bounds(self.marks.executables@.take(i as int));
            assert(self.marks.executables@.take(i as int).len() == i);
        }
        let s = self.executables[i];
        BaseIndex::from_index(i - s as usize)
    }

    /// Rewrite a surviving handle of this kind.
    pub fn shift_generators(&self, h: Generator) -> (r: Generator)
        requires
            self.wf(),
            self.marks.spec_marked(generator_node(h)),
        ensures
            r.index() == spec_shift_idx(*self, HeapKind::Generator, h.index()),
    {
        let i = h.into_index();
        proof {
            assert(self.shift_row(HeapKind::Generator) == self.generators@);
            assert(row_of(self.marks, HeapKind::Generator) == self.marks.generators@);
            assert(self.generators@[i as int] == count_false(self.marks.generators@.take(i as int)));
            lemma_count_false_bounds(self.marks.generators@.take(i as int));
            assert(self.marks.generators@.take(i as int).len() == i);
        }
        let s = self.generators[i];
        BaseIndex::from_index(i - s as usize)
    }

    /// Rewrite a surviving handle of this kind.
    pub fn shift_numbers(&self, h: HeapNumber) -> (r: HeapNumber)
        requires
            self.wf(),
            self.marks.spec_marked(number_node(h)),
        ensures
            r.index() == spec_shift_idx(*self, HeapKind::Number, h.index()),
    {
        let i = h.into_index();
        proof {
            assert(self.shift_row(HeapKind::Number) == self.numbers@);
            assert(row_of(self.marks, HeapKind::Number) == self.marks.numbers@);
            assert(self.numbers@[i as int] == count_false(self.marks.numbers@.take(i as int)));
            lemma_count_false_bounds(self.marks.numbers@.take(i as int));
            assert(self.marks.numbers@.take(i as int).len() == i);
        }
        let s = self.numbers[i];
        BaseIndex::from_index(i - s as usize)
    }

    /// Rewrite a surviving handle of this kind.
    pub fn shift_objects(&self, h: OrdinaryObject) -> (r: OrdinaryObject)
        requires
            self.wf(),
            self.marks.spec_marked(object_node(h)),
        ensures
            r.index() == spec_shift_idx(*self, HeapKind::Object, h.index()),
    {
        let i = h.into_index();
        proof {
            assert(self.shift_row(HeapKind::Object) == self.objects@);
            assert(row_of(self.marks, HeapKind::Object) == self.marks.objects@);
            assert(self.objects@[i as int] == count_false(self.marks.objects@.take(i as int)));
            lemma_count_false_bounds(self.marks.objects@.take(i as int));
            assert(self.marks.objects@.take(i as int).len() == i);
        }
        let s = self.objects[i];
        BaseIndex::from_index(i - s as usize)
    }

    /// Rewrite a surviving handle of this kind.
    pub fn shift_primitive_objects(&self, h: PrimitiveObject) -> (r: PrimitiveObject)
        requires
            self.wf(),
            self.marks.spec_marked(primitive_object_node(h)),
        ensures
            r.index() == spec_shift_idx(*self, HeapKind::PrimitiveObject, h.index()),
    {
        let i = h.into_index();
        proof {
            assert(self.shift_row(HeapKind::PrimitiveObject) == self.primitive_objects@);
            assert(row_of(self.marks, HeapKind::PrimitiveObject) == self.marks.primitive_objects@);
            assert(self.primitive_objects@[i as int] == count_false(self.marks.primitive_objects@.take(i as int)));
            lemma_count_false_bounds(self.marks.primitive_objects@.take(i as int));
            assert(self.marks.primitive_objects@.take(i as int).len() == i);
        }
        let s = self.primitive_objects[i];
        BaseIndex::from_index(i - s as usize)
    }

    /// Rewrite a surviving handle of this kind.
    pub fn shift_promises(&self, h: Promise) -> (r: Promise)
        requires
            self.wf(),
            self.marks.spec_marked(promise_node(h)),
        ensures
            r.index() == spec_shift_idx(*self, HeapKind::Promise, h.index()),
    {
        let i = h.into_index();
        proof {
            assert(self.shift_row(HeapKind::Promise) == self.promises@);
            assert(row_of(self.marks, HeapKind::Promise) == self.marks.promises@);
            assert(self.promises@[i as int] == count_false(self.marks.promises@.take(i as int)));
            lemma_count_false_bounds(self.marks.promises@.take(i as int));
            assert(self.marks.promises@.take(i as int).len() == i);
        }
        let s = self.promises[i];
        BaseIndex::from_index(i - s as usize)
    }

    /// Rewrite a surviving handle of this kind.
    pub fn shift_regexps(&self, h: RegExp) -> (r: RegExp)
        requires
            self.wf(),
            self.marks.spec_marked(regexp_node(h)),
        ensures
            r.index() == spec_shift_idx(*self, HeapKind::RegExp, h.index()),
    {
        let i = h.into_index();
        proof {
            assert(self.shift_row(HeapKind::RegExp) == self.regexps@);
            assert(row_of(self.marks, HeapKind::RegExp) == self.marks.regexps@);
            assert(self.regexps@[i as int] == count_false(self.marks.regexps@.take(i as int)));
            lemma_count_false_bounds(self.marks.regexps@.take(i as int));
            assert(self.marks.regexps@.take(i as int).len() == i);
        }
        let s = self.regexps[i];
        BaseIndex::from_index(i - s as usize)
    }

    /// Rewrite a surviving handle of this kind.
    pub fn shift_sets(&self, h: SetIndex) -> (r: SetIndex)
        requires
            self.wf(),
            self.marks.spec_marked(set_node(h)),
        ensures
            r.index() == spec_shift_idx(*self, HeapKind::SetObject, h.index()),
    {
        let i = h.into_index();
        proof {
            assert(self.shift_row(HeapKind::SetObject) == self.sets@);
            assert(row_of(self.marks, HeapKind::SetObject) == self.marks.sets@);
            assert(self.sets@[i as int] == count_false(self.marks.sets@.take(i as int)));
            lemma_count_false_bounds(self.marks.sets@.take(i as int));
            assert(self.marks.sets@.take(i as int).len() == i);
        }
        let s = self.sets[i];
        BaseIndex::from_index(i - s as usize)
    }

    /// Rewrite a surviving handle of this kind.
    pub fn shift_strings(&self, h: HeapString) -> (r: HeapString)
        requires
            self.wf(),
            self.marks.spec_marked(string_node(h)),
        ensures
            r.index() == spec_shift_idx(*self, HeapKind::StringData, h.index()),
    {
        let i = h.into_index();
        proof {
            assert(self.shift_row(HeapKind::StringData) == self.strings@);
            assert(row_of(self.marks, HeapKind::StringData) == self.marks.strings@);
            assert(self.strings@[i as int] == count_false(self.marks.strings@.take(i as int)));
            lemma_count_false_bounds(self.marks.strings@.take(i as int));
            assert(self.marks.strings@.take(i as int).len() == i);
        }
        let s = self.strings[i];
        BaseIndex::from_index(i - s as usize)
    }

    /// Rewrite a surviving handle of this kind.
    pub fn shift_symbols(&self, h: Symbol) -> (r: Symbol)
        requires
            self.wf(),
            self.marks.spec_marked(symbol_node(h)),
        ensures
            r.index() == spec_shift_idx(*self, HeapKind::Symbol, h.index()),
    {
        let i = h.into_index();
        proof {
            assert(self.shift_row(HeapKind::Symbol) == self.symbols@);
            assert(row_of(self.marks, HeapKind::Symbol) == self.marks.symbols@);
            assert(self.symbols@[i as int] == count_false(self.marks.symbols@.take(i as int)));
            lemma_count_false_bounds(self.marks.symbols@.take(i as int));
            assert(self.marks.symbols@.take(i as int).len() == i);
        }
        let s = self.symbols[i];
        BaseIndex::from_index(i - s as usize)
    }

}
/// A value after handle rewriting: the same inline payload, or the same kind
/// of handle renumbered by the kind's table.
pub open spec fn value_swept_ok(c: CompactionLists, a: Value, b: Value) -> bool {
    match a {
        Value::Undefined => b == Value::Undefined,
        Value::Null => b == Value::Null,
        Value::Boolean(x) => b == Value::Boolean(x),
        Value::String(h) => b matches Value::String(h2) && h2.index() == spec_shift_idx(
            c,
            HeapKind::StringData,
            h.index(),
        ),
        Value::SmallString(s) => b == Value::SmallString(s),
        Value::Symbol(h) => b matches Value::Symbol(h2) && h2.index() == spec_shift_idx(
            c,
            HeapKind::Symbol,
            h.index(),
        ),
        Value::Number(h) => b matches Value::Number(h2) && h2.index() == spec_shift_idx(
            c,
            HeapKind::Number,
            h.index(),
        ),
        Value::Integer(x) => b == Value::Integer(x),
        Value::SmallF64(x) => b == Value::SmallF64(x),
        Value::BigInt(h) => b matches Value::BigInt(h2) && h2.index() == spec_shift_idx(
            c,
            HeapKind::BigInt,
            h.index(),
        ),
        Value::SmallBigInt(x) => b == Value::SmallBigInt(x),
        Value::Object(h) => b matches Value::Object(h2) && h2.index() == spec_shift_idx(
            c,
            HeapKind::Object,
            h.index(),
        ),
        Value::BoundFunction(h) => b matches Value::BoundFunction(h2) && h2.index()
            == spec_shift_idx(c, HeapKind::BoundFunction, h.index()),
        Value::BuiltinFunction(h) => b matches Value::BuiltinFunction(h2) && h2.index()
            == spec_shift_idx(c, HeapKind::BuiltinFunction, h.index()),
        Value::ECMAScriptFunction(h) => b matches Value::ECMAScriptFunction(h2) && h2.index()
            == spec_shift_idx(c, HeapKind::EcmascriptFunction, h.index()),
        Value::PrimitiveObject(h) => b matches Value::PrimitiveObject(h2) && h2.index()
            == spec_shift_idx(c, HeapKind::PrimitiveObject, h.index()),
        Value::Arguments(h) => b matches Value::Arguments(h2) && h2.index() == spec_shift_idx(
            c,
            HeapKind::Object,
            h.index(),
        ),
        Value::Array(a2) => b matches Value::Array(b2) && b2.0.index() == spec_shift_idx(
            c,
            HeapKind::Array,
            a2.0.index(),
        ),
        Value::Date(h) => b matches Value::Date(h2) && h2.index() == spec_shift_idx(
            c,
            HeapKind::Date,
            h.index(),
        ),
        Value::Error(h) => b matches Value::Error(h2) && h2.index() == spec_shift_idx(
            c,
            HeapKind::Error,
            h.index(),
        ),
        Value::Promise(h) => b matches Value::Promise(h2) && h2.index() == spec_shift_idx(
            c,
            HeapKind::Promise,
            h.index(),
        ),
        Value::RegExp(h) => b matches Value::RegExp(h2) && h2.index() == spec_shift_idx(
            c,
            HeapKind::RegExp,
            h.index(),
        ),
        Value::SetObject(a2) => b matches Value::SetObject(b2) && b2.0.index() == spec_shift_idx(
            c,
            HeapKind::SetObject,
            a2.0.index(),
        ),
        Value::AsyncGenerator(a2) => b matches Value::AsyncGenerator(b2) && b2.0.index()
            == spec_shift_idx(c, HeapKind::AsyncGenerator, a2.0.index()),
        Value::Generator(h) => b matches Value::Generator(h2) && h2.index() == spec_shift_idx(
            c,
            HeapKind::Generator,
            h.index(),
        ),
    }
}

/// An optional value after handle rewriting.
pub open spec fn opt_value_swept_ok(c: CompactionLists, a: Option<Value>, b: Option<Value>) -> bool {
    match a {
        Some(v) => b matches Some(w) && value_swept_ok(c, v, w),
        None => b is None,
    }
}

/// A value row after handle rewriting: same length, rewritten pointwise.
pub open spec fn seq_value_swept_ok(c: CompactionLists, a: Seq<Value>, b: Seq<Value>) -> bool {
    b.len() == a.len() && forall|i: int| 0 <= i < a.len() ==> value_swept_ok(c, a[i], #[trigger] b[i])
}

/// An optional-value row after handle rewriting.
pub open spec fn seq_opt_value_swept_ok(
    c: CompactionLists,
    a: Seq<Option<Value>>,
    b: Seq<Option<Value>>,
) -> bool {
    b.len() == a.len() && forall|i: int|
        0 <= i < a.len() ==> opt_value_swept_ok(c, a[i], #[trigger] b[i])
}

/// A runtime string after handle rewriting.
pub open spec fn js_string_swept_ok(c: CompactionLists, a: JsString, b: JsString) -> bool {
    match a {
        JsString::Small(s) => b == JsString::Small(s),
        JsString::Heap(h) => b matches JsString::Heap(h2) && h2.index() == spec_shift_idx(
            c,
            HeapKind::StringData,
            h.index(),
        ),
    }
}

/// An optional runtime string after handle rewriting.
pub open spec fn opt_string_swept_ok(
    c: CompactionLists,
    a: Option<JsString>,
    b: Option<JsString>,
) -> bool {
    match a {
        Some(s) => b matches Some(t) && js_string_swept_ok(c, s, t),
        None => b is None,
    }
}

/// An optional backing-object handle after rewriting.
pub open spec fn opt_ordinary_swept_ok(
    c: CompactionLists,
    a: Option<OrdinaryObject>,
    b: Option<OrdinaryObject>,
) -> bool {
    match a {
        Some(h) => b matches Some(h2) && h2.index() == spec_shift_idx(
            c,
            HeapKind::Object,
            h.index(),
        ),
        None => b is None,
    }
}

/// An object reference after handle rewriting: same kind, renumbered slot.
pub open spec fn object_ref_swept_ok(c: CompactionLists, a: Object, b: Object) -> bool {
    value_swept_ok(c, crate::object::spec_object_value(a), crate::object::spec_object_value(b))
}

/// An optional executable handle after rewriting.
pub open spec fn opt_executable_swept_ok(
    c: CompactionLists,
    a: Option<Executable>,
    b: Option<Executable>,
) -> bool {
    match a {
        Some(h) => b matches Some(h2) && h2.index() == spec_shift_idx(
            c,
            HeapKind::Executable,
            h.index(),
        ),
        None => b is None,
    }
}

/// A property key after handle rewriting.
pub open spec fn key_swept_ok(c: CompactionLists, a: PropertyKey, b: PropertyKey) -> bool {
    match a {
        PropertyKey::Integer(x) => b == PropertyKey::Integer(x),
        PropertyKey::SmallString(s) => b == PropertyKey::SmallString(s),
        PropertyKey::String(h) => b matches PropertyKey::String(h2) && h2.index()
            == spec_shift_idx(c, HeapKind::StringData, h.index()),
        PropertyKey::Symbol(h) => b matches PropertyKey::Symbol(h2) && h2.index()
            == spec_shift_idx(c, HeapKind::Symbol, h.index()),
    }
}

/// A property entry after handle rewriting: same attributes, key and value
/// rewritten.
pub open spec fn entry_swept_ok(c: CompactionLists, a: ObjectEntry, b: ObjectEntry) -> bool {
    &&& key_swept_ok(c, a.key, b.key)
    &&& value_swept_ok(c, a.value, b.value)
    &&& b.writable == a.writable
    &&& b.enumerable == a.enumerable
    &&& b.configurable == a.configurable
}

/// An entry row after handle rewriting.
pub open spec fn seq_entry_swept_ok(
    c: CompactionLists,
    a: Seq<ObjectEntry>,
    b: Seq<ObjectEntry>,
) -> bool {
    b.len() == a.len() && forall|i: int|
        0 <= i < a.len() ==> entry_swept_ok(c, a[i], #[trigger] b[i])
}

/// A queued request after handle rewriting.
pub open spec fn request_swept_ok(
    c: CompactionLists,
    a: AsyncGeneratorRequest,
    b: AsyncGeneratorRequest,
) -> bool {
    &&& match a.completion {
        AsyncGeneratorRequestCompletion::Normal(v) => b.completion matches AsyncGeneratorRequestCompletion::Normal(
            w,
        ) && value_swept_ok(c, v, w),
        AsyncGeneratorRequestCompletion::Throw(e) => b.completion matches AsyncGeneratorRequestCompletion::Throw(
            f,
        ) && value_swept_ok(c, e.spec_value(), f.spec_value()),
        AsyncGeneratorRequestCompletion::Return(v) => b.completion matches AsyncGeneratorRequestCompletion::Return(
            w,
        ) && value_swept_ok(c, v, w),
    }
    &&& b.capability.promise.index() == spec_shift_idx(
        c,
        HeapKind::Promise,
        a.capability.promise.index(),
    )
    &&& b.capability.must_be_unresolved == a.capability.must_be_unresolved
}

/// A request queue after handle rewriting.
pub open spec fn seq_request_swept_ok(
    c: CompactionLists,
    a: Seq<AsyncGeneratorRequest>,
    b: Seq<AsyncGeneratorRequest>,
) -> bool {
    b.len() == a.len() && forall|i: int|
        0 <= i < a.len() ==> request_swept_ok(c, a[i], #[trigger] b[i])
}

/// An execution-context frame after handle rewriting.
pub open spec fn context_swept_ok(
    c: CompactionLists,
    a: ExecutionContext,
    b: ExecutionContext,
) -> bool {
    match a.function {
        Some(f) => b.function matches Some(g) && g.index() == spec_shift_idx(
            c,
            HeapKind::EcmascriptFunction,
            f.index(),
        ),
        None => b.function is None,
    }
}

/// A parked snapshot after handle rewriting: same instruction pointer, stack
/// and locals rewritten pointwise.
pub open spec fn vm_swept_ok(c: CompactionLists, a: SuspendedVm, b: SuspendedVm) -> bool {
    &&& b.ip == a.ip
    &&& seq_value_swept_ok(c, a.stack@, b.stack@)
    &&& seq_value_swept_ok(c, a.locals@, b.locals@)
}

/// The suspended half of a generator after handle rewriting.
pub open spec fn suspended_generator_swept_ok(
    c: CompactionLists,
    a: SuspendedGeneratorState,
    b: SuspendedGeneratorState,
) -> bool {
    &&& vm_swept_ok(c, a.vm, b.vm)
    &&& b.executable.index() == spec_shift_idx(c, HeapKind::Executable, a.executable.index())
    &&& context_swept_ok(c, a.execution_context, b.execution_context)
}

/// A string record survives with its content unchanged.
pub open spec fn string_record_swept_ok(c: CompactionLists, a: StringHeapData, b: StringHeapData) -> bool {
    b.bytes@ == a.bytes@
}

/// A number record survives unchanged.
pub open spec fn number_record_swept_ok(c: CompactionLists, a: NumberHeapData, b: NumberHeapData) -> bool {
    b == a
}

/// A big-integer record survives unchanged.
pub open spec fn bigint_record_swept_ok(c: CompactionLists, a: BigIntHeapData, b: BigIntHeapData) -> bool {
    b == a
}

/// A symbol record survives with its descriptor rewritten.
pub open spec fn symbol_record_swept_ok(c: CompactionLists, a: SymbolHeapData, b: SymbolHeapData) -> bool {
    opt_string_swept_ok(c, a.descriptor, b.descriptor)
}

/// A date record survives with its time value unchanged.
pub open spec fn date_record_swept_ok(c: CompactionLists, a: DateHeapData<i64>, b: DateHeapData<i64>) -> bool {
    &&& opt_ordinary_swept_ok(c, a.object_index, b.object_index)
    &&& b.date == a.date
}

/// An error record survives with kind kept and handles rewritten.
pub open spec fn error_record_swept_ok(c: CompactionLists, a: ErrorHeapData, b: ErrorHeapData) -> bool {
    &&& opt_ordinary_swept_ok(c, a.object_index, b.object_index)
    &&& b.kind == a.kind
    &&& opt_string_swept_ok(c, a.message, b.message)
    &&& opt_value_swept_ok(c, a.cause, b.cause)
}

/// A regular-expression record survives with flags kept.
pub open spec fn regexp_record_swept_ok(c: CompactionLists, a: RegExpHeapData, b: RegExpHeapData) -> bool {
    &&& opt_ordinary_swept_ok(c, a.object_index, b.object_index)
    &&& js_string_swept_ok(c, a.original_source, b.original_source)
    &&& b.original_flags == a.original_flags
}

/// A primitive-wrapper record survives with its payload rewritten.
pub open spec fn primitive_object_record_swept_ok(
    c: CompactionLists,
    a: PrimitiveObjectHeapData,
    b: PrimitiveObjectHeapData,
) -> bool {
    &&& opt_ordinary_swept_ok(c, a.object_index, b.object_index)
    &&& match a.data {
        PrimitiveObjectData::Boolean(x) => b.data == PrimitiveObjectData::Boolean(x),
        PrimitiveObjectData::String(h) => b.data matches PrimitiveObjectData::String(h2)
            && h2.index() == spec_shift_idx(c, HeapKind::StringData, h.index()),
        PrimitiveObjectData::SmallString(s) => b.data == PrimitiveObjectData::SmallString(s),
        PrimitiveObjectData::Symbol(h) => b.data matches PrimitiveObjectData::Symbol(h2)
            && h2.index() == spec_shift_idx(c, HeapKind::Symbol, h.index()),
        PrimitiveObjectData::Number(h) => b.data matches PrimitiveObjectData::Number(h2)
            && h2.index() == spec_shift_idx(c, HeapKind::Number, h.index()),
        PrimitiveObjectData::Integer(x) => b.data == PrimitiveObjectData::Integer(x),
        PrimitiveObjectData::SmallF64(x) => b.data == PrimitiveObjectData::SmallF64(x),
        PrimitiveObjectData::BigInt(h) => b.data matches PrimitiveObjectData::BigInt(h2)
            && h2.index() == spec_shift_idx(c, HeapKind::BigInt, h.index()),
        PrimitiveObjectData::SmallBigInt(x) => b.data == PrimitiveObjectData::SmallBigInt(x),
    }
}

/// An ordinary-object record survives with every entry rewritten in place.
pub open spec fn object_record_swept_ok(c: CompactionLists, a: ObjectHeapData, b: ObjectHeapData) -> bool {
    &&& b.extensible == a.extensible
    &&& match a.prototype {
        Some(p) => b.prototype matches Some(q) && object_ref_swept_ok(c, p, q),
        None => b.prototype is None,
    }
    &&& seq_entry_swept_ok(c, a.entries@, b.entries@)
}

/// An array record survives with its length fields kept and elements
/// rewritten.
pub open spec fn array_record_swept_ok(c: CompactionLists, a: ArrayHeapData, b: ArrayHeapData) -> bool {
    &&& opt_ordinary_swept_ok(c, a.object_index, b.object_index)
    &&& b.elements.len == a.elements.len
    &&& b.elements.len_writable == a.elements.len_writable
    &&& seq_opt_value_swept_ok(c, a.elements.values@, b.elements.values@)
}

/// A set record survives with its elements rewritten in order.
pub open spec fn set_record_swept_ok(c: CompactionLists, a: SetHeapData, b: SetHeapData) -> bool {
    &&& opt_ordinary_swept_ok(c, a.object_index, b.object_index)
    &&& seq_value_swept_ok(c, a.elements@, b.elements@)
}

/// A promise record survives with its settlement rewritten.
pub open spec fn promise_record_swept_ok(c: CompactionLists, a: PromiseHeapData, b: PromiseHeapData) -> bool {
    &&& opt_ordinary_swept_ok(c, a.object_index, b.object_index)
    &&& match a.promise_state {
        PromiseState::Pending => b.promise_state is Pending,
        PromiseState::Fulfilled(v) => b.promise_state matches PromiseState::Fulfilled(w)
            && value_swept_ok(c, v, w),
        PromiseState::Rejected(v) => b.promise_state matches PromiseState::Rejected(w)
            && value_swept_ok(c, v, w),
    }
}

/// An executable record survives with its code kept and constants rewritten.
pub open spec fn executable_record_swept_ok(
    c: CompactionLists,
    a: ExecutableHeapData,
    b: ExecutableHeapData,
) -> bool {
    &&& b.instructions@ == a.instructions@
    &&& b.local_count == a.local_count
    &&& seq_value_swept_ok(c, a.constants@, b.constants@)
}

/// A bound-function record survives with every reference rewritten.
pub open spec fn bound_function_record_swept_ok(
    c: CompactionLists,
    a: BoundFunctionHeapData,
    b: BoundFunctionHeapData,
) -> bool {
    &&& opt_ordinary_swept_ok(c, a.object_index, b.object_index)
    &&& opt_string_swept_ok(c, a.name, b.name)
    &&& object_ref_swept_ok(c, a.bound_target_function, b.bound_target_function)
    &&& value_swept_ok(c, a.bound_this, b.bound_this)
    &&& seq_value_swept_ok(c, a.bound_arguments@, b.bound_arguments@)
}

/// A built-in-function record survives with behaviour and length kept.
pub open spec fn builtin_function_record_swept_ok(
    c: CompactionLists,
    a: BuiltinFunctionHeapData,
    b: BuiltinFunctionHeapData,
) -> bool {
    &&& opt_ordinary_swept_ok(c, a.object_index, b.object_index)
    &&& opt_string_swept_ok(c, a.name, b.name)
    &&& b.length == a.length
    &&& b.behaviour == a.behaviour
}

/// A compiled-function record survives with its source shape kept, its cache
/// handle rewritten, and its constant pool rewritten.
pub open spec fn ecmascript_function_record_swept_ok(
    c: CompactionLists,
    a: ECMAScriptFunctionHeapData,
    b: ECMAScriptFunctionHeapData,
) -> bool {
    &&& opt_ordinary_swept_ok(c, a.object_index, b.object_index)
    &&& opt_string_swept_ok(c, a.name, b.name)
    &&& b.length == a.length
    &&& b.formal_parameters == a.formal_parameters
    &&& b.ecmascript_code.instructions@ == a.ecmascript_code.instructions@
    &&& seq_value_swept_ok(c, a.ecmascript_code.constants@, b.ecmascript_code.constants@)
    &&& opt_executable_swept_ok(c, a.compiled_bytecode, b.compiled_bytecode)
    &&& b.is_strict == a.is_strict
    &&& b.is_async == a.is_async
    &&& b.is_generator == a.is_generator
    &&& b.is_concise_arrow_function == a.is_concise_arrow_function
    &&& b.lexical_this == a.lexical_this
    &&& b.is_constructor == a.is_constructor
}

/// A generator record survives with its state machine rewritten.
pub open spec fn generator_record_swept_ok(
    c: CompactionLists,
    a: GeneratorHeapData,
    b: GeneratorHeapData,
) -> bool {
    &&& opt_ordinary_swept_ok(c, a.object_index, b.object_index)
    &&& match a.generator_state {
        Some(s) => b.generator_state matches Some(t) && match s {
            GeneratorState::SuspendedStart(sa) => t matches GeneratorState::SuspendedStart(tb)
                && suspended_generator_swept_ok(c, sa, tb),
            GeneratorState::SuspendedYield(sa) => t matches GeneratorState::SuspendedYield(tb)
                && suspended_generator_swept_ok(c, sa, tb),
            GeneratorState::Executing => t is Executing,
            GeneratorState::Completed => t is Completed,
        },
        None => b.generator_state is None,
    }
}

/// An async-generator record survives with its state machine and queue
/// rewritten; the queue keeps its order and length.
pub open spec fn async_generator_record_swept_ok(
    c: CompactionLists,
    a: AsyncGeneratorHeapData,
    b: AsyncGeneratorHeapData,
) -> bool {
    &&& opt_ordinary_swept_ok(c, a.object_index, b.object_index)
    &&& opt_executable_swept_ok(c, a.executable, b.executable)
    &&& match a.async_generator_state {
        Some(s) => b.async_generator_state matches Some(t) && match s {
            AsyncGeneratorState::SuspendedStart { vm, execution_context, queue } => t matches AsyncGeneratorState::SuspendedStart {
                vm: vm2,
                execution_context: ec2,
                queue: q2,
            } && vm_swept_ok(c, vm, vm2) && context_swept_ok(c, execution_context, ec2)
                && seq_request_swept_ok(c, queue@, q2@),
            AsyncGeneratorState::SuspendedYield { vm, execution_context, queue } => t matches AsyncGeneratorState::SuspendedYield {
                vm: vm2,
                execution_context: ec2,
                queue: q2,
            } && vm_swept_ok(c, vm, vm2) && context_swept_ok(c, execution_context, ec2)
                && seq_request_swept_ok(c, queue@, q2@),
            AsyncGeneratorState::Executing(queue) => t matches AsyncGeneratorState::Executing(q2)
                && seq_request_swept_ok(c, queue@, q2@),
            AsyncGeneratorState::ExecutingAwait { vm, execution_context, queue, kind } => t matches AsyncGeneratorState::ExecutingAwait {
                vm: vm2,
                execution_context: ec2,
                queue: q2,
                kind: k2,
            } && vm_swept_ok(c, vm, vm2) && context_swept_ok(c, execution_context, ec2)
                && seq_request_swept_ok(c, queue@, q2@) && k2 == kind,
            AsyncGeneratorState::DrainingQueue(queue) => t matches AsyncGeneratorState::DrainingQueue(
                q2,
            ) && seq_request_swept_ok(c, queue@, q2@),
            AsyncGeneratorState::Completed(queue) => t matches AsyncGeneratorState::Completed(q2)
                && seq_request_swept_ok(c, queue@, q2@),
        },
        None => b.async_generator_state is None,
    }
}

/// Rewrite one value's handle, if it holds one.
fn sweep_value(c: &CompactionLists, v: Value) -> (r: Value)
    requires
        c.wf(),
        forall|n: Node| value_nodes(v).contains(n) ==> c.marks.spec_marked(n),
    ensures
        value_swept_ok(*c, v, r),
{
    match v {
        Value::String(h) => Value::String(c.shift_strings(h)),
        Value::Symbol(h) => Value::Symbol(c.shift_symbols(h)),
        Value::Number(h) => Value::Number(c.shift_numbers(h)),
        Value::BigInt(h) => Value::BigInt(c.shift_bigints(h)),
        Value::Object(h) => Value::Object(c.shift_objects(h)),
        Value::BoundFunction(h) => Value::BoundFunction(c.shift_bound_functions(h)),
        Value::BuiltinFunction(h) => Value::BuiltinFunction(c.shift_builtin_functions(h)),
        Value::ECMAScriptFunction(h) => Value::ECMAScriptFunction(c.shift_ecmascript_functions(h)),
        Value::PrimitiveObject(h) => Value::PrimitiveObject(c.shift_primitive_objects(h)),
        Value::Arguments(h) => Value::Arguments(c.shift_objects(h)),
        Value::Array(a) => Value::Array(crate::array::Array(c.shift_arrays(a.0))),
        Value::Date(h) => Value::Date(c.shift_dates(h)),
        Value::Error(h) => Value::Error(c.shift_errors(h)),
        Value::Promise(h) => Value::Promise(c.shift_promises(h)),
        Value::RegExp(h) => Value::RegExp(c.shift_regexps(h)),
        Value::SetObject(s) => Value::SetObject(SetObject(c.shift_sets(s.0))),
        Value::AsyncGenerator(g) => Value::AsyncGenerator(
            crate::async_generator::AsyncGenerator(c.shift_async_generators(g.0)),
        ),
        Value::Generator(h) => Value::Generator(c.shift_generators(h)),
        _ => v,
    }
}

/// Rewrite an optional value.
fn sweep_opt_value(c: &CompactionLists, v: &Option<Value>) -> (r: Option<Value>)
    requires
        c.wf(),
        forall|n: Node| opt_value_nodes(*v).contains(n) ==> c.marks.spec_marked(n),
    ensures
        opt_value_swept_ok(*c, *v, r),
{
    match v {
        Some(v) => Some(sweep_value(c, *v)),
        None => None,
    }
}

/// Rewrite a runtime string's handle, if heap-resident.
fn sweep_js_string(c: &CompactionLists, s: JsString) -> (r: JsString)
    requires
        c.wf(),
        forall|n: Node| node_set(js_string_node(s)).contains(n) ==> c.marks.spec_marked(n),
    ensures
        js_string_swept_ok(*c, s, r),
{
    match s {
        JsString::Heap(h) => JsString::Heap(c.shift_strings(h)),
        JsString::Small(small) => JsString::Small(small),
    }
}

/// Rewrite an optional runtime string.
fn sweep_opt_string(c: &CompactionLists, s: &Option<JsString>) -> (r: Option<JsString>)
    requires
        c.wf(),
        forall|n: Node| opt_string_nodes(*s).contains(n) ==> c.marks.spec_marked(n),
    ensures
        opt_string_swept_ok(*c, *s, r),
{
    match s {
        Some(s) => Some(sweep_js_string(c, *s)),
        None => None,
    }
}

/// Rewrite an optional backing-object handle.
fn sweep_opt_ordinary(c: &CompactionLists, o: &Option<OrdinaryObject>) -> (r: Option<
    OrdinaryObject,
>)
    requires
        c.wf(),
        forall|n: Node| opt_ordinary_nodes(*o).contains(n) ==> c.marks.spec_marked(n),
    ensures
        opt_ordinary_swept_ok(*c, *o, r),
{
    match o {
        Some(h) => Some(c.shift_objects(*h)),
        None => None,
    }
}

/// Rewrite an object reference.
fn sweep_object_ref(c: &CompactionLists, o: Object) -> (r: Object)
    requires
        c.wf(),
        c.marks.spec_marked(object_ref_node(o)),
    ensures
        object_ref_swept_ok(*c, o, r),
{
    match o {
        Object::Object(h) => Object::Object(c.shift_objects(h)),
        Object::BoundFunction(h) => Object::BoundFunction(c.shift_bound_functions(h)),
        Object::BuiltinFunction(h) => Object::BuiltinFunction(c.shift_builtin_functions(h)),
        Object::ECMAScriptFunction(h) => Object::ECMAScriptFunction(
            c.shift_ecmascript_functions(h),
        ),
        Object::PrimitiveObject(h) => Object::PrimitiveObject(c.shift_primitive_objects(h)),
        Object::Arguments(h) => Object::Arguments(c.shift_objects(h)),
        Object::Array(a) => Object::Array(crate::array::Array(c.shift_arrays(a.0))),
        Object::Date(h) => Object::Date(c.shift_dates(h)),
        Object::Error(h) => Object::Error(c.shift_errors(h)),
        Object::Promise(h) => Object::Promise(c.shift_promises(h)),
        Object::RegExp(h) => Object::RegExp(c.shift_regexps(h)),
        Object::SetObject(s) => Object::SetObject(SetObject(c.shift_sets(s.0))),
        Object::AsyncGenerator(g) => Object::AsyncGenerator(
            crate::async_generator::AsyncGenerator(c.shift_async_generators(g.0)),
        ),
        Object::Generator(h) => Object::Generator(c.shift_generators(h)),
    }
}

/// Rewrite an optional executable handle.
fn sweep_opt_executable(c: &CompactionLists, o: &Option<Executable>) -> (r: Option<Executable>)
    requires
        c.wf(),
        forall|n: Node| opt_executable_nodes(*o).contains(n) ==> c.marks.spec_marked(n),
    ensures
        opt_executable_swept_ok(*c, *o, r),
{
    match o {
        Some(h) => Some(c.shift_executables(*h)),
        None => None,
    }
}

/// Rewrite a row of values in place.
fn sweep_value_vec(c: &CompactionLists, s: Vec<Value>) -> (r: Vec<Value>)
    requires
        c.wf(),
        forall|n: Node| seq_value_nodes(s@).contains(n) ==> c.marks.spec_marked(n),
    ensures
        seq_value_swept_ok(*c, s@, r@),
{
    proof {
        lemma_seq_value_nodes_all(s@);
    }
    let n = s.len();
    let mut r: Vec<Value> = Vec::new();
    let mut i: usize = 0;
    while i < n
        invariant
            c.wf(),
            n == s@.len(),
            0 <= i <= n,
            r@.len() == i,
            forall|j: int| 0 <= j < i ==> value_swept_ok(*c, s@[j], #[trigger] r@[j]),
            forall|j: int, m: Node|
                0 <= j < n && value_nodes(s@[j]).contains(m) ==> c.marks.spec_marked(m),
        decreases n - i,
    {
        r.push(sweep_value(c, s[i]));
        i += 1;
    }
    r
}

/// Every element's edges lie inside the row's edge set.
proof fn lemma_seq_value_nodes_all(s: Seq<Value>)
    ensures
        forall|j: int, m: Node|
            0 <= j < s.len() && value_nodes(s[j]).contains(m) ==> seq_value_nodes(s).contains(m),
    decreases s.len(),
{
    if s.len() > 0 {
        lemma_seq_value_nodes_all(s.drop_last());
        assert forall|j: int, m: Node|
            0 <= j < s.len() && value_nodes(s[j]).contains(m) implies seq_value_nodes(
            s,
        ).contains(m) by {
            if j < s.len() - 1 {
                assert(s.drop_last()[j] == s[j]);
                assert(seq_value_nodes(s.drop_last()).contains(m));
            } else {
                assert(s[j] == s.last());
            }
        }
    }
}

/// Every element's edges lie inside the row's edge set.
proof fn lemma_seq_opt_value_nodes_all(s: Seq<Option<Value>>)
    ensures
        forall|j: int, m: Node|
            0 <= j < s.len() && opt_value_nodes(s[j]).contains(m) ==> seq_opt_value_nodes(
                s,
            ).contains(m),
    decreases s.len(),
{
    if s.len() > 0 {
        lemma_seq_opt_value_nodes_all(s.drop_last());
        assert forall|j: int, m: Node|
            0 <= j < s.len() && opt_value_nodes(s[j]).contains(m) implies seq_opt_value_nodes(
            s,
        ).contains(m) by {
            if j < s.len() - 1 {
                assert(s.drop_last()[j] == s[j]);
                assert(seq_opt_value_nodes(s.drop_last()).contains(m));
            } else {
                assert(s[j] == s.last());
            }
        }
    }
}

/// Every entry's edges lie inside the row's edge set.
proof fn lemma_seq_entry_nodes_all(s: Seq<ObjectEntry>)
    ensures
        forall|j: int, m: Node|
            0 <= j < s.len() && entry_nodes(s[j]).contains(m) ==> seq_entry_nodes(s).contains(m),
    decreases s.len(),
{
    if s.len() > 0 {
        lemma_seq_entry_nodes_all(s.drop_last());
        assert forall|j: int, m: Node|
            0 <= j < s.len() && entry_nodes(s[j]).contains(m) implies seq_entry_nodes(
            s,
        ).contains(m) by {
            if j < s.len() - 1 {
                assert(s.drop_last()[j] == s[j]);
                assert(seq_entry_nodes(s.drop_last()).contains(m));
            } else {
                assert(s[j] == s.last());
            }
        }
    }
}

/// Every request's edges lie inside the queue's edge set.
proof fn lemma_seq_request_nodes_all(s: Seq<AsyncGeneratorRequest>)
    ensures
        forall|j: int, m: Node|
            0 <= j < s.len() && request_nodes(s[j]).contains(m) ==> seq_request_nodes(
                s,
            ).contains(m),
    decreases s.len(),
{
    if s.len() > 0 {
        lemma_seq_request_nodes_all(s.drop_last());
        assert forall|j: int, m: Node|
            0 <= j < s.len() && request_nodes(s[j]).contains(m) implies seq_request_nodes(
            s,
        ).contains(m) by {
            if j < s.len() - 1 {
                assert(s.drop_last()[j] == s[j]);
                assert(seq_request_nodes(s.drop_last()).contains(m));
            } else {
                assert(s[j] == s.last());
            }
        }
    }
}

/// Rewrite a row of optional values.
fn sweep_opt_value_vec(c: &CompactionLists, s: Vec<Option<Value>>) -> (r: Vec<Option<Value>>)
    requires
        c.wf(),
        forall|n: Node| seq_opt_value_nodes(s@).contains(n) ==> c.marks.spec_marked(n),
    ensures
        seq_opt_value_swept_ok(*c, s@, r@),
{
    proof {
        lemma_seq_opt_value_nodes_all(s@);
    }
    let n = s.len();
    let mut r: Vec<Option<Value>> = Vec::new();
    let mut i: usize = 0;
    while i < n
        invariant
            c.wf(),
            n == s@.len(),
            0 <= i <= n,
            r@.len() == i,
            forall|j: int| 0 <= j < i ==> opt_value_swept_ok(*c, s@[j], #[trigger] r@[j]),
            forall|j: int, m: Node|
                0 <= j < n && opt_value_nodes(s@[j]).contains(m) ==> c.marks.spec_marked(m),
        decreases n - i,
    {
        r.push(sweep_opt_value(c, &s[i]));
        i += 1;
    }
    r
}

/// Rewrite a row of property entries.
fn sweep_entries(c: &CompactionLists, s: Vec<ObjectEntry>) -> (r: Vec<ObjectEntry>)
    requires
        c.wf(),
        forall|n: Node| seq_entry_nodes(s@).contains(n) ==> c.marks.spec_marked(n),
    ensures
        seq_entry_swept_ok(*c, s@, r@),
{
    proof {
        lemma_seq_entry_nodes_all(s@);
    }
    let n = s.len();
    let mut r: Vec<ObjectEntry> = Vec::new();
    let mut i: usize = 0;
    while i < n
        invariant
            c.wf(),
            n == s@.len(),
            0 <= i <= n,
            r@.len() == i,
            forall|j: int| 0 <= j < i ==> entry_swept_ok(*c, s@[j], #[trigger] r@[j]),
            forall|j: int, m: Node|
                0 <= j < n && entry_nodes(s@[j]).contains(m) ==> c.marks.spec_marked(m),
        decreases n - i,
    {
        let entry = &s[i];
        proof {
            assert forall|m: Node| value_nodes(entry.value).contains(m) implies c.marks.spec_marked(
                m,
            ) by {
                assert(entry_nodes(s@[i as int]).contains(m));
            }
            assert forall|m: Node| node_set(key_node(entry.key)).contains(m)
                implies c.marks.spec_marked(m) by {
                assert(entry_nodes(s@[i as int]).contains(m));
            }
        }
        let key = match entry.key {
            PropertyKey::String(h) => PropertyKey::String(c.shift_strings(h)),
            PropertyKey::Symbol(h) => PropertyKey::Symbol(c.shift_symbols(h)),
            other => other,
        };
        let value = sweep_value(c, entry.value);
        r.push(
            ObjectEntry {
                key,
                value,
                writable: entry.writable,
                enumerable: entry.enumerable,
                configurable: entry.configurable,
            },
        );
        i += 1;
    }
    r
}

/// Rewrite a request queue, keeping its order.
fn sweep_requests(c: &CompactionLists, s: VecDeque<AsyncGeneratorRequest>) -> (r: VecDeque<
    AsyncGeneratorRequest,
>)
    requires
        c.wf(),
        forall|n: Node| seq_request_nodes(s@).contains(n) ==> c.marks.spec_marked(n),
    ensures
        seq_request_swept_ok(*c, s@, r@),
{
    proof {
        lemma_seq_request_nodes_all(s@);
    }
    let n = s.len();
    let mut r: VecDeque<AsyncGeneratorRequest> = VecDeque::new();
    let mut i: usize = 0;
    while i < n
        invariant
            c.wf(),
            n == s@.len(),
            0 <= i <= n,
            r@.len() == i,
            forall|j: int| 0 <= j < i ==> request_swept_ok(*c, s@[j], #[trigger] r@[j]),
            forall|j: int, m: Node|
                0 <= j < n && request_nodes(s@[j]).contains(m) ==> c.marks.spec_marked(m),
        decreases n - i,
    {
        let request = &s[i];
        proof {
            assert forall|m: Node|
                (match request.completion {
                    AsyncGeneratorRequestCompletion::Normal(v) => value_nodes(v),
                    AsyncGeneratorRequestCompletion::Throw(e) => value_nodes(e.spec_value()),
                    AsyncGeneratorRequestCompletion::Return(v) => value_nodes(v),
                }).contains(m) implies c.marks.spec_marked(m) by {
                assert(request_nodes(s@[i as int]).contains(m));
            }
            assert(request_nodes(s@[i as int]).contains(
                crate::gc::promise_node(request.capability.promise),
            ));
        }
        let completion = match request.completion {
            AsyncGeneratorRequestCompletion::Normal(v) => AsyncGeneratorRequestCompletion::Normal(
                sweep_value(c, v),
            ),
            AsyncGeneratorRequestCompletion::Throw(e) => AsyncGeneratorRequestCompletion::Throw(
                JsError::new(sweep_value(c, e.value())),
            ),
            AsyncGeneratorRequestCompletion::Return(v) => AsyncGeneratorRequestCompletion::Return(
                sweep_value(c, v),
            ),
        };
        let capability = PromiseCapability {
            promise: c.shift_promises(request.capability.promise),
            must_be_unresolved: request.capability.must_be_unresolved,
        };
        r.push_back(AsyncGeneratorRequest { completion, capability });
        i += 1;
    }
    r
}

/// Rewrite an execution-context frame.
fn sweep_context(c: &CompactionLists, ctx: &ExecutionContext) -> (r: ExecutionContext)
    requires
        c.wf(),
        forall|n: Node| context_edges(*ctx).contains(n) ==> c.marks.spec_marked(n),
    ensures
        context_swept_ok(*c, *ctx, r),
{
    match ctx.function {
        Some(f) => ExecutionContext { function: Some(c.shift_ecmascript_functions(f)) },
        None => ExecutionContext { function: None },
    }
}

/// Rewrite a parked snapshot.
fn sweep_vm(c: &CompactionLists, vm: SuspendedVm) -> (r: SuspendedVm)
    requires
        c.wf(),
        forall|n: Node| vm_edges(vm).contains(n) ==> c.marks.spec_marked(n),
    ensures
        vm_swept_ok(*c, vm, r),
{
    let SuspendedVm { ip, stack, locals } = vm;
    let stack = sweep_value_vec(c, stack);
    let locals = sweep_value_vec(c, locals);
    SuspendedVm { ip, stack, locals }
}

/// Rewrite a string record: content is untouched.
fn sweep_string_record(c: &CompactionLists, d: StringHeapData) -> (r: StringHeapData)
    ensures
        string_record_swept_ok(*c, d, r),
{
    d
}

/// Rewrite a number record: the bits are untouched.
fn sweep_number_record(c: &CompactionLists, d: NumberHeapData) -> (r: NumberHeapData)
    ensures
        number_record_swept_ok(*c, d, r),
{
    d
}

/// Rewrite a big-integer record: the value is untouched.
fn sweep_bigint_record(c: &CompactionLists, d: BigIntHeapData) -> (r: BigIntHeapData)
    ensures
        bigint_record_swept_ok(*c, d, r),
{
    d
}

/// Rewrite a symbol record.
fn sweep_symbol_record(c: &CompactionLists, d: SymbolHeapData) -> (r: SymbolHeapData)
    requires
        c.wf(),
        forall|n: Node| symbol_edges(d).contains(n) ==> c.marks.spec_marked(n),
    ensures
        symbol_record_swept_ok(*c, d, r),
{
    SymbolHeapData { descriptor: sweep_opt_string(c, &d.descriptor) }
}

/// Rewrite a date record.
fn sweep_date_record(c: &CompactionLists, d: DateHeapData<i64>) -> (r: DateHeapData<i64>)
    requires
        c.wf(),
        forall|n: Node| date_edges(d).contains(n) ==> c.marks.spec_marked(n),
    ensures
        date_record_swept_ok(*c, d, r),
{
    DateHeapData { object_index: sweep_opt_ordinary(c, &d.object_index), date: d.date }
}

/// Rewrite an error record.
fn sweep_error_record(c: &CompactionLists, d: ErrorHeapData) -> (r: ErrorHeapData)
    requires
        c.wf(),
        forall|n: Node| error_edges(d).contains(n) ==> c.marks.spec_marked(n),
    ensures
        error_record_swept_ok(*c, d, r),
{
    proof {
        assert forall|m: Node| opt_ordinary_nodes(d.object_index).contains(m)
            implies c.marks.spec_marked(m) by {
            assert(error_edges(d).contains(m));
        }
        assert forall|m: Node| opt_string_nodes(d.message).contains(m)
            implies c.marks.spec_marked(m) by {
            assert(error_edges(d).contains(m));
        }
        assert forall|m: Node| opt_value_nodes(d.cause).contains(m)
            implies c.marks.spec_marked(m) by {
            assert(error_edges(d).contains(m));
        }
    }
    ErrorHeapData {
        object_index: sweep_opt_ordinary(c, &d.object_index),
        kind: d.kind,
        message: sweep_opt_string(c, &d.message),
        cause: sweep_opt_value(c, &d.cause),
    }
}

/// Rewrite a regular-expression record.
fn sweep_regexp_record(c: &CompactionLists, d: RegExpHeapData) -> (r: RegExpHeapData)
    requires
        c.wf(),
        forall|n: Node| regexp_edges(d).contains(n) ==> c.marks.spec_marked(n),
    ensures
        regexp_record_swept_ok(*c, d, r),
{
    proof {
        assert forall|m: Node| opt_ordinary_nodes(d.object_index).contains(m)
            implies c.marks.spec_marked(m) by {
            assert(regexp_edges(d).contains(m));
        }
        assert forall|m: Node| node_set(js_string_node(d.original_source)).contains(m)
            implies c.marks.spec_marked(m) by {
            assert(regexp_edges(d).contains(m));
        }
    }
    RegExpHeapData {
        object_index: sweep_opt_ordinary(c, &d.object_index),
        original_source: sweep_js_string(c, d.original_source),
        original_flags: d.original_flags,
    }
}

/// Rewrite a primitive-wrapper record.
fn sweep_primitive_object_record(c: &CompactionLists, d: PrimitiveObjectHeapData) -> (r:
    PrimitiveObjectHeapData)
    requires
        c.wf(),
        forall|n: Node| primitive_object_edges(d).contains(n) ==> c.marks.spec_marked(n),
    ensures
        primitive_object_record_swept_ok(*c, d, r),
{
    proof {
        assert forall|m: Node| opt_ordinary_nodes(d.object_index).contains(m)
            implies c.marks.spec_marked(m) by {
            assert(primitive_object_edges(d).contains(m));
        }
    }
    let data = match d.data {
        PrimitiveObjectData::String(h) => {
            proof {
                assert(primitive_object_edges(d).contains(string_node(h)));
            }
            PrimitiveObjectData::String(c.shift_strings(h))
        },
        PrimitiveObjectData::Symbol(h) => {
            proof {
                assert(primitive_object_edges(d).contains(symbol_node(h)));
            }
            PrimitiveObjectData::Symbol(c.shift_symbols(h))
        },
        PrimitiveObjectData::Number(h) => {
            proof {
                assert(primitive_object_edges(d).contains(number_node(h)));
            }
            PrimitiveObjectData::Number(c.shift_numbers(h))
        },
        PrimitiveObjectData::BigInt(h) => {
            proof {
                assert(primitive_object_edges(d).contains(bigint_node(h)));
            }
            PrimitiveObjectData::BigInt(c.shift_bigints(h))
        },
        other => other,
    };
    PrimitiveObjectHeapData { object_index: sweep_opt_ordinary(c, &d.object_index), data }
}

/// Rewrite an ordinary-object record.
fn sweep_object_record(c: &CompactionLists, d: ObjectHeapData) -> (r: ObjectHeapData)
    requires
        c.wf(),
        forall|n: Node| object_data_edges(d).contains(n) ==> c.marks.spec_marked(n),
    ensures
        object_record_swept_ok(*c, d, r),
{
    proof {
        assert forall|m: Node| seq_entry_nodes(d.entries@).contains(m)
            implies c.marks.spec_marked(m) by {
            assert(object_data_edges(d).contains(m));
        }
    }
    let prototype = match d.prototype {
        Some(p) => {
            proof {
                assert(object_data_edges(d).contains(object_ref_node(p)));
            }
            Some(sweep_object_ref(c, p))
        },
        None => None,
    };
    let ObjectHeapData { extensible, prototype: _, entries } = d;
    let entries = sweep_entries(c, entries);
    ObjectHeapData { extensible, prototype, entries }
}

/// Rewrite an array record.
fn sweep_array_record(c: &CompactionLists, d: ArrayHeapData) -> (r: ArrayHeapData)
    requires
        c.wf(),
        forall|n: Node| array_edges(d).contains(n) ==> c.marks.spec_marked(n),
    ensures
        array_record_swept_ok(*c, d, r),
{
    proof {
        assert forall|m: Node| opt_ordinary_nodes(d.object_index).contains(m)
            implies c.marks.spec_marked(m) by {
            assert(array_edges(d).contains(m));
        }
        assert forall|m: Node| seq_opt_value_nodes(d.elements.values@).contains(m)
            implies c.marks.spec_marked(m) by {
            assert(array_edges(d).contains(m));
        }
    }
    let object_index = sweep_opt_ordinary(c, &d.object_index);
    let ArrayHeapData { object_index: _, elements } = d;
    let ElementsVector { values, len, len_writable } = elements;
    let values = sweep_opt_value_vec(c, values);
    ArrayHeapData { object_index, elements: ElementsVector { values, len, len_writable } }
}

/// Rewrite a set record.
fn sweep_set_record(c: &CompactionLists, d: SetHeapData) -> (r: SetHeapData)
    requires
        c.wf(),
        forall|n: Node| set_edges(d).contains(n) ==> c.marks.spec_marked(n),
    ensures
        set_record_swept_ok(*c, d, r),
{
    proof {
        assert forall|m: Node| opt_ordinary_nodes(d.object_index).contains(m)
            implies c.marks.spec_marked(m) by {
            assert(set_edges(d).contains(m));
        }
        assert forall|m: Node| seq_value_nodes(d.elements@).contains(m)
            implies c.marks.spec_marked(m) by {
            assert(set_edges(d).contains(m));
        }
    }
    let object_index = sweep_opt_ordinary(c, &d.object_index);
    let SetHeapData { object_index: _, elements } = d;
    let elements = sweep_value_vec(c, elements);
    SetHeapData { object_index, elements }
}

/// Rewrite a promise record.
fn sweep_promise_record(c: &CompactionLists, d: PromiseHeapData) -> (r: PromiseHeapData)
    requires
        c.wf(),
        forall|n: Node| promise_edges(d).contains(n) ==> c.marks.spec_marked(n),
    ensures
        promise_record_swept_ok(*c, d, r),
{
    proof {
        assert forall|m: Node| opt_ordinary_nodes(d.object_index).contains(m)
            implies c.marks.spec_marked(m) by {
            assert(promise_edges(d).contains(m));
        }
    }
    let promise_state = match d.promise_state {
        PromiseState::Pending => PromiseState::Pending,
        PromiseState::Fulfilled(v) => {
            proof {
                assert forall|m: Node| value_nodes(v).contains(m) implies c.marks.spec_marked(
                    m,
                ) by {
                    assert(promise_edges(d).contains(m));
                }
            }
            PromiseState::Fulfilled(sweep_value(c, v))
        },
        PromiseState::Rejected(v) => {
            proof {
                assert forall|m: Node| value_nodes(v).contains(m) implies c.marks.spec_marked(
                    m,
                ) by {
                    assert(promise_edges(d).contains(m));
                }
            }
            PromiseState::Rejected(sweep_value(c, v))
        },
    };
    PromiseHeapData { object_index: sweep_opt_ordinary(c, &d.object_index), promise_state }
}

/// Rewrite an executable record.
fn sweep_executable_record(c: &CompactionLists, d: ExecutableHeapData) -> (r: ExecutableHeapData)
    requires
        c.wf(),
        forall|n: Node| executable_edges(d).contains(n) ==> c.marks.spec_marked(n),
    ensures
        executable_record_swept_ok(*c, d, r),
{
    let ExecutableHeapData { instructions, constants, local_count } = d;
    let constants = sweep_value_vec(c, constants);
    ExecutableHeapData { instructions, constants, local_count }
}

/// Rewrite a bound-function record.
fn sweep_bound_function_record(c: &CompactionLists, d: BoundFunctionHeapData) -> (r:
    BoundFunctionHeapData)
    requires
        c.wf(),
        forall|n: Node| bound_function_edges(d).contains(n) ==> c.marks.spec_marked(n),
    ensures
        bound_function_record_swept_ok(*c, d, r),
{
    proof {
        assert forall|m: Node| opt_ordinary_nodes(d.object_index).contains(m)
            implies c.marks.spec_marked(m) by {
            assert(bound_function_edges(d).contains(m));
        }
        assert forall|m: Node| opt_string_nodes(d.name).contains(m)
            implies c.marks.spec_marked(m) by {
            assert(bound_function_edges(d).contains(m));
        }
        assert forall|m: Node| seq_value_nodes(d.bound_arguments@).contains(m)
            implies c.marks.spec_marked(m) by {
            assert(bound_function_edges(d).contains(m));
        }
        assert forall|m: Node| value_nodes(d.bound_this).contains(m)
            implies c.marks.spec_marked(m) by {
            assert(bound_function_edges(d).contains(m));
        }
        assert(bound_function_edges(d).contains(object_ref_node(d.bound_target_function)));
    }
    let object_index = sweep_opt_ordinary(c, &d.object_index);
    let name = sweep_opt_string(c, &d.name);
    let bound_target_function = sweep_object_ref(c, d.bound_target_function);
    let bound_this = sweep_value(c, d.bound_this);
    let BoundFunctionHeapData { bound_arguments, .. } = d;
    let bound_arguments = sweep_value_vec(c, bound_arguments);
    BoundFunctionHeapData { object_index, name, bound_target_function, bound_this, bound_arguments }
}

/// Rewrite a built-in-function record.
fn sweep_builtin_function_record(c: &CompactionLists, d: BuiltinFunctionHeapData) -> (r:
    BuiltinFunctionHeapData)
    requires
        c.wf(),
        forall|n: Node| builtin_function_edges(d).contains(n) ==> c.marks.spec_marked(n),
    ensures
        builtin_function_record_swept_ok(*c, d, r),
{
    proof {
        assert forall|m: Node| opt_ordinary_nodes(d.object_index).contains(m)
            implies c.marks.spec_marked(m) by {
            assert(builtin_function_edges(d).contains(m));
        }
        assert forall|m: Node| opt_string_nodes(d.name).contains(m)
            implies c.marks.spec_marked(m) by {
            assert(builtin_function_edges(d).contains(m));
        }
    }
    BuiltinFunctionHeapData {
        object_index: sweep_opt_ordinary(c, &d.object_index),
        name: sweep_opt_string(c, &d.name),
        length: d.length,
        behaviour: d.behaviour,
    }
}

/// Rewrite a compiled-function record.
fn sweep_ecmascript_function_record(c: &CompactionLists, d: ECMAScriptFunctionHeapData) -> (r:
    ECMAScriptFunctionHeapData)
    requires
        c.wf(),
        forall|n: Node| ecmascript_function_edges(d).contains(n) ==> c.marks.spec_marked(n),
    ensures
        ecmascript_function_record_swept_ok(*c, d, r),
{
    proof {
        assert forall|m: Node| opt_ordinary_nodes(d.object_index).contains(m)
            implies c.marks.spec_marked(m) by {
            assert(ecmascript_function_edges(d).contains(m));
        }
        assert forall|m: Node| opt_string_nodes(d.name).contains(m)
            implies c.marks.spec_marked(m) by {
            assert(ecmascript_function_edges(d).contains(m));
        }
        assert forall|m: Node| opt_executable_nodes(d.compiled_bytecode).contains(m)
            implies c.marks.spec_marked(m) by {
            assert(ecmascript_function_edges(d).contains(m));
        }
        assert forall|m: Node| seq_value_nodes(d.ecmascript_code.constants@).contains(m)
            implies c.marks.spec_marked(m) by {
            assert(ecmascript_function_edges(d).contains(m));
        }
    }
    let object_index = sweep_opt_ordinary(c, &d.object_index);
    let name = sweep_opt_string(c, &d.name);
    let compiled_bytecode = sweep_opt_executable(c, &d.compiled_bytecode);
    let ECMAScriptFunctionHeapData {
        length,
        formal_parameters,
        ecmascript_code,
        is_strict,
        is_async,
        is_generator,
        is_concise_arrow_function,
        lexical_this,
        is_constructor,
        ..
    } = d;
    let crate::ast::FunctionBody { instructions, constants, local_count } = ecmascript_code;
    let constants = sweep_value_vec(c, constants);
    ECMAScriptFunctionHeapData {
        object_index,
        name,
        length,
        formal_parameters,
        ecmascript_code: crate::ast::FunctionBody { instructions, constants, local_count },
        compiled_bytecode,
        is_strict,
        is_async,
        is_generator,
        is_concise_arrow_function,
        lexical_this,
        is_constructor,
    }
}

/// Rewrite a generator record.
fn sweep_generator_record(c: &CompactionLists, d: GeneratorHeapData) -> (r: GeneratorHeapData)
    requires
        c.wf(),
        forall|n: Node| generator_edges(d).contains(n) ==> c.marks.spec_marked(n),
    ensures
        generator_record_swept_ok(*c, d, r),
{
    proof {
        assert forall|m: Node| opt_ordinary_nodes(d.object_index).contains(m)
            implies c.marks.spec_marked(m) by {
            assert(generator_edges(d).contains(m));
        }
    }
    let object_index = sweep_opt_ordinary(c, &d.object_index);
    let GeneratorHeapData { generator_state, .. } = d;
    let generator_state = match generator_state {
        Some(s) => Some(
            match s {
                GeneratorState::SuspendedStart(sus) => {
                    proof {
                        assert forall|m: Node| suspended_generator_edges(sus).contains(m)
                            implies c.marks.spec_marked(m) by {
                            assert(generator_edges(d).contains(m));
                        }
                    }
                    GeneratorState::SuspendedStart(sweep_suspended_generator(c, sus))
                },
                GeneratorState::SuspendedYield(sus) => {
                    proof {
                        assert forall|m: Node| suspended_generator_edges(sus).contains(m)
                            implies c.marks.spec_marked(m) by {
                            assert(generator_edges(d).contains(m));
                        }
                    }
                    GeneratorState::SuspendedYield(sweep_suspended_generator(c, sus))
                },
                GeneratorState::Executing => GeneratorState::Executing,
                GeneratorState::Completed => GeneratorState::Completed,
            },
        ),
        None => None,
    };
    GeneratorHeapData { object_index, generator_state }
}

/// Rewrite the suspended half of a generator.
fn sweep_suspended_generator(c: &CompactionLists, s: SuspendedGeneratorState) -> (r:
    SuspendedGeneratorState)
    requires
        c.wf(),
        forall|n: Node| suspended_generator_edges(s).contains(n) ==> c.marks.spec_marked(n),
    ensures
        suspended_generator_swept_ok(*c, s, r),
{
    proof {
        assert forall|m: Node| vm_edges(s.vm).contains(m) implies c.marks.spec_marked(m) by {
            assert(suspended_generator_edges(s).contains(m));
        }
        assert forall|m: Node| context_edges(s.execution_context).contains(m)
            implies c.marks.spec_marked(m) by {
            assert(suspended_generator_edges(s).contains(m));
        }
        assert(suspended_generator_edges(s).contains(executable_node(s.executable)));
    }
    let executable = c.shift_executables(s.executable);
    let execution_context = sweep_context(c, &s.execution_context);
    let SuspendedGeneratorState { vm, .. } = s;
    let vm = sweep_vm(c, vm);
    SuspendedGeneratorState { vm, executable, execution_context }
}

/// Rewrite an async-generator record.
fn sweep_async_generator_record(c: &CompactionLists, d: AsyncGeneratorHeapData) -> (r:
    AsyncGeneratorHeapData)
    requires
        c.wf(),
        forall|n: Node| async_generator_edges(d).contains(n) ==> c.marks.spec_marked(n),
    ensures
        async_generator_record_swept_ok(*c, d, r),
{
    proof {
        assert forall|m: Node| opt_ordinary_nodes(d.object_index).contains(m)
            implies c.marks.spec_marked(m) by {
            assert(async_generator_edges(d).contains(m));
        }
        assert forall|m: Node| opt_executable_nodes(d.executable).contains(m)
            implies c.marks.spec_marked(m) by {
            assert(async_generator_edges(d).contains(m));
        }
    }
    let object_index = sweep_opt_ordinary(c, &d.object_index);
    let executable = sweep_opt_executable(c, &d.executable);
    let AsyncGeneratorHeapData { async_generator_state, .. } = d;
    let async_generator_state = match async_generator_state {
        Some(s) => Some(
            match s {
                AsyncGeneratorState::SuspendedStart { vm, execution_context, queue } => {
                    proof {
                        assert forall|m: Node|
                            vm_edges(vm).contains(m) || context_edges(execution_context).contains(
                                m,
                            ) || seq_request_nodes(queue@).contains(m)
                            implies c.marks.spec_marked(m) by {
                            assert(async_generator_edges(d).contains(m));
                        }
                    }
                    AsyncGeneratorState::SuspendedStart {
                        vm: sweep_vm(c, vm),
                        execution_context: sweep_context(c, &execution_context),
                        queue: sweep_requests(c, queue),
                    }
                },
                AsyncGeneratorState::SuspendedYield { vm, execution_context, queue } => {
                    proof {
                        assert forall|m: Node|
                            vm_edges(vm).contains(m) || context_edges(execution_context).contains(
                                m,
                            ) || seq_request_nodes(queue@).contains(m)
                            implies c.marks.spec_marked(m) by {
                            assert(async_generator_edges(d).contains(m));
                        }
                    }
                    AsyncGeneratorState::SuspendedYield {
                        vm: sweep_vm(c, vm),
                        execution_context: sweep_context(c, &execution_context),
                        queue: sweep_requests(c, queue),
                    }
                },
                AsyncGeneratorState::Executing(queue) => {
                    proof {
                        assert forall|m: Node| seq_request_nodes(queue@).contains(m)
                            implies c.marks.spec_marked(m) by {
                            assert(async_generator_edges(d).contains(m));
                        }
                    }
                    AsyncGeneratorState::Executing(sweep_requests(c, queue))
                },
                AsyncGeneratorState::ExecutingAwait { vm, execution_context, queue, kind } => {
                    proof {
                        assert forall|m: Node|
                            vm_edges(vm).contains(m) || context_edges(execution_context).contains(
                                m,
                            ) || seq_request_nodes(queue@).contains(m)
                            implies c.marks.spec_marked(m) by {
                            assert(async_generator_edges(d).contains(m));
                        }
                    }
                    AsyncGeneratorState::ExecutingAwait {
                        vm: sweep_vm(c, vm),
                        execution_context: sweep_context(c, &execution_context),
                        queue: sweep_requests(c, queue),
                        kind,
                    }
                },
                AsyncGeneratorState::DrainingQueue(queue) => {
                    proof {
                        assert forall|m: Node| seq_request_nodes(queue@).contains(m)
                            implies c.marks.spec_marked(m) by {
                            assert(async_generator_edges(d).contains(m));
                        }
                    }
                    AsyncGeneratorState::DrainingQueue(sweep_requests(c, queue))
                },
                AsyncGeneratorState::Completed(queue) => {
                    proof {
                        assert forall|m: Node| seq_request_nodes(queue@).contains(m)
                            implies c.marks.spec_marked(m) by {
                            assert(async_generator_edges(d).contains(m));
                        }
                    }
                    AsyncGeneratorState::Completed(sweep_requests(c, queue))
                },
            },
        ),
        None => None,
    };
    AsyncGeneratorHeapData { object_index, async_generator_state, executable }
}


/// Compact one kind's arena: drop unmarked slots, shift survivors down,
/// rewriting each survivor's handles.
pub fn compact_arrays(c: &CompactionLists, slots: Vec<Option<ArrayHeapData>>) -> (r: Vec<Option<ArrayHeapData>>)
    requires
        c.wf(),
        c.marks.arrays@.len() == slots@.len(),
        forall|i: int| 0 <= i < slots@.len() && c.marks.arrays@[i] ==> slots@[i] is Some,
        forall|i: int, n: Node|
            0 <= i < slots@.len() && c.marks.arrays@[i] && #[trigger] array_edges(
                slots@[i]->Some_0,
            ).contains(n) ==> c.marks.spec_marked(n),
    ensures
        r@.len() == slots@.len() - count_false(c.marks.arrays@),
        forall|j: int| 0 <= j < r@.len() ==> r@[j] is Some,
        forall|i: int|
            0 <= i < slots@.len() && c.marks.arrays@[i] ==> #[trigger] slot_moved_arrays(
                *c,
                slots@,
                r@,
                i,
            ),
{
    let mut remaining = slots;
    let ghost orig = remaining@;
    let n = remaining.len();
    let mut r: Vec<Option<ArrayHeapData>> = Vec::new();
    let mut i: usize = 0;
    proof {
        assert(c.marks.arrays@.take(0) =~= Seq::<bool>::empty());
    }
    while i < n
        invariant
            c.wf(),
            n == remaining@.len() == orig.len(),
            c.marks.arrays@.len() == n,
            forall|k: int| 0 <= k < n && c.marks.arrays@[k] ==> orig[k] is Some,
            forall|k: int, m: Node|
                0 <= k < n && c.marks.arrays@[k] && #[trigger] array_edges(orig[k]->Some_0).contains(m)
                    ==> c.marks.spec_marked(m),
            forall|k: int| i <= k < n ==> remaining@[k] == orig[k],
            0 <= i <= n,
            r@.len() == i - count_false(c.marks.arrays@.take(i as int)),
            forall|j: int| 0 <= j < r@.len() ==> r@[j] is Some,
            forall|k: int|
                0 <= k < i && c.marks.arrays@[k] ==> #[trigger] slot_moved_arrays(*c, orig, r@, k),
        decreases n - i,
    {
        proof {
            lemma_count_false_take(c.marks.arrays@, i as int);
            lemma_count_false_bounds(c.marks.arrays@.take(i as int));
        }
        let ghost pre_r = r@;
        if c.marks.arrays[i] {
            let mut slot: Option<ArrayHeapData> = None;
            core::mem::swap(&mut slot, &mut remaining[i]);
            match slot {
                Some(record) => {
                    let swept = sweep_array_record(c, record);
                    r.push(Some(swept));
                    proof {
                        assert(slot_moved_arrays(*c, orig, r@, i as int));
                        assert forall|k: int|
                            0 <= k < i + 1 && c.marks.arrays@[k] implies #[trigger] slot_moved_arrays(
                            *c,
                            orig,
                            r@,
                            k,
                        ) by {
                            if k < i {
                                assert(slot_moved_arrays(*c, orig, pre_r, k));
                                lemma_count_false_bounds(c.marks.arrays@.take(k));
                            }
                        }
                    }
                },
                None => {
                    proof {
                        assert(false);
                    }
                },
            }
        } else {
            proof {
                assert forall|k: int|
                    0 <= k < i + 1 && c.marks.arrays@[k] implies #[trigger] slot_moved_arrays(
                    *c,
                    orig,
                    r@,
                    k,
                ) by {
                    assert(k < i);
                    assert(slot_moved_arrays(*c, orig, pre_r, k));
                }
            }
        }
        i += 1;
    }
    proof {
        assert(c.marks.arrays@.take(n as int) =~= c.marks.arrays@);
    }
    r
}

/// Did the marked slot `i` survive to its shifted position with its record
/// rewritten?
pub open spec fn slot_moved_arrays(
    c: CompactionLists,
    old_slots: Seq<Option<ArrayHeapData>>,
    new_slots: Seq<Option<ArrayHeapData>>,
    i: int,
) -> bool {
    let j = i - count_false(c.marks.arrays@.take(i));
    &&& 0 <= j < new_slots.len()
    &&& new_slots[j] is Some
    &&& array_record_swept_ok(c, old_slots[i]->Some_0, new_slots[j]->Some_0)
}

/// Compact one kind's arena: drop unmarked slots, shift survivors down,
/// rewriting each survivor's handles.
pub fn compact_async_generators(c: &CompactionLists, slots: Vec<Option<AsyncGeneratorHeapData>>) -> (r: Vec<Option<AsyncGeneratorHeapData>>)
    requires
        c.wf(),
        c.marks.async_generators@.len() == slots@.len(),
        forall|i: int| 0 <= i < slots@.len() && c.marks.async_generators@[i] ==> slots@[i] is Some,
        forall|i: int, n: Node|
            0 <= i < slots@.len() && c.marks.async_generators@[i] && #[trigger] async_generator_edges(
                slots@[i]->Some_0,
            ).contains(n) ==> c.marks.spec_marked(n),
    ensures
        r@.len() == slots@.len() - count_false(c.marks.async_generators@),
        forall|j: int| 0 <= j < r@.len() ==> r@[j] is Some,
        forall|i: int|
            0 <= i < slots@.len() && c.marks.async_generators@[i] ==> #[trigger] slot_moved_async_generators(
                *c,
                slots@,
                r@,
                i,
            ),
{
    let mut remaining = slots;
    let ghost orig = remaining@;
    let n = remaining.len();
    let mut r: Vec<Option<AsyncGeneratorHeapData>> = Vec::new();
    let mut i: usize = 0;
    proof {
        assert(c.marks.async_generators@.take(0) =~= Seq::<bool>::empty());
    }
    while i < n
        invariant
            c.wf(),
            n == remaining@.len() == orig.len(),
            c.marks.async_generators@.len() == n,
            forall|k: int| 0 <= k < n && c.marks.async_generators@[k] ==> orig[k] is Some,
            forall|k: int, m: Node|
                0 <= k < n && c.marks.async_generators@[k] && #[trigger] async_generator_edges(orig[k]->Some_0).contains(m)
                    ==> c.marks.spec_marked(m),
            forall|k: int| i <= k < n ==> remaining@[k] == orig[k],
            0 <= i <= n,
            r@.len() == i - count_false(c.marks.async_generators@.take(i as int)),
            forall|j: int| 0 <= j < r@.len() ==> r@[j] is Some,
            forall|k: int|
                0 <= k < i && c.marks.async_generators@[k] ==> #[trigger] slot_moved_async_generators(*c, orig, r@, k),
        decreases n - i,
    {
        proof {
            lemma_count_false_take(c.marks.async_generators@, i as int);
            lemma_count_false_bounds(c.marks.async_generators@.take(i as int));
        }
        let ghost pre_r = r@;
        if c.marks.async_generators[i] {
            let mut slot: Option<AsyncGeneratorHeapData> = None;
            core::mem::swap(&mut slot, &mut remaining[i]);
            match slot {
                Some(record) => {
                    let swept = sweep_async_generator_record(c, record);
                    r.push(Some(swept));
                    proof {
                        assert(slot_moved_async_generators(*c, orig, r@, i as int));
                        assert forall|k: int|
                            0 <= k < i + 1 && c.marks.async_generators@[k] implies #[trigger] slot_moved_async_generators(
                            *c,
                            orig,
                            r@,
                            k,
                        ) by {
                            if k < i {
                                assert(slot_moved_async_generators(*c, orig, pre_r, k));
                                lemma_count_false_bounds(c.marks.async_generators@.take(k));
                            }
                        }
                    }
                },
                None => {
                    proof {
                        assert(false);
                    }
                },
            }
        } else {
            proof {
                assert forall|k: int|
                    0 <= k < i + 1 && c.marks.async_generators@[k] implies #[trigger] slot_moved_async_generators(
                    *c,
                    orig,
                    r@,
                    k,
                ) by {
                    assert(k < i);
                    assert(slot_moved_async_generators(*c, orig, pre_r, k));
                }
            }
        }
        i += 1;
    }
    proof {
        assert(c.marks.async_generators@.take(n as int) =~= c.marks.async_generators@);
    }
    r
}

/// Did the marked slot `i` survive to its shifted position with its record
/// rewritten?
pub open spec fn slot_moved_async_generators(
    c: CompactionLists,
    old_slots: Seq<Option<AsyncGeneratorHeapData>>,
    new_slots: Seq<Option<AsyncGeneratorHeapData>>,
    i: int,
) -> bool {
    let j = i - count_false(c.marks.async_generators@.take(i));
    &&& 0 <= j < new_slots.len()
    &&& new_slots[j] is Some
    &&& async_generator_record_swept_ok(c, old_slots[i]->Some_0, new_slots[j]->Some_0)
}

/// Compact one kind's arena: drop unmarked slots, shift survivors down,
/// rewriting each survivor's handles.
pub fn compact_bigints(c: &CompactionLists, slots: Vec<Option<BigIntHeapData>>) -> (r: Vec<Option<BigIntHeapData>>)
    requires
        c.wf(),
        c.marks.bigints@.len() == slots@.len(),
        forall|i: int| 0 <= i < slots@.len() && c.marks.bigints@[i] ==> slots@[i] is Some,
    ensures
        r@.len() == slots@.len() - count_false(c.marks.bigints@),
        forall|j: int| 0 <= j < r@.len() ==> r@[j] is Some,
        forall|i: int|
            0 <= i < slots@.len() && c.marks.bigints@[i] ==> #[trigger] slot_moved_bigints(
                *c,
                slots@,
                r@,
                i,
            ),
{
    let mut remaining = slots;
    let ghost orig = remaining@;
    let n = remaining.len();
    let mut r: Vec<Option<BigIntHeapData>> = Vec::new();
    let mut i: usize = 0;
    proof {
        assert(c.marks.bigints@.take(0) =~= Seq::<bool>::empty());
    }
    while i < n
        invariant
            c.wf(),
            n == remaining@.len() == orig.len(),
            c.marks.bigints@.len() == n,
            forall|k: int| 0 <= k < n && c.marks.bigints@[k] ==> orig[k] is Some,
            forall|k: int| i <= k < n ==> remaining@[k] == orig[k],
            0 <= i <= n,
            r@.len() == i - count_false(c.marks.bigints@.take(i as int)),
            forall|j: int| 0 <= j < r@.len() ==> r@[j] is Some,
            forall|k: int|
                0 <= k < i && c.marks.bigints@[k] ==> #[trigger] slot_moved_bigints(*c, orig, r@, k),
        decreases n - i,
    {
        proof {
            lemma_count_false_take(c.marks.bigints@, i as int);
            lemma_count_false_bounds(c.marks.bigints@.take(i as int));
        }
        let ghost pre_r = r@;
        if c.marks.bigints[i] {
            let mut slot: Option<BigIntHeapData> = None;
            core::mem::swap(&mut slot, &mut remaining[i]);
            match slot {
                Some(record) => {
                    let swept = sweep_bigint_record(c, record);
                    r.push(Some(swept));
                    proof {
                        assert(slot_moved_bigints(*c, orig, r@, i as int));
                        assert forall|k: int|
                            0 <= k < i + 1 && c.marks.bigints@[k] implies #[trigger] slot_moved_bigints(
                            *c,
                            orig,
                            r@,
                            k,
                        ) by {
                            if k < i {
                                assert(slot_moved_bigints(*c, orig, pre_r, k));
                                lemma_count_false_bounds(c.marks.bigints@.take(k));
                            }
                        }
                    }
                },
                None => {
                    proof {
                        assert(false);
                    }
                },
            }
        } else {
            proof {
                assert forall|k: int|
                    0 <= k < i + 1 && c.marks.bigints@[k] implies #[trigger] slot_moved_bigints(
                    *c,
                    orig,
                    r@,
                    k,
                ) by {
                    assert(k < i);
                    assert(slot_moved_bigints(*c, orig, pre_r, k));
                }
            }
        }
        i += 1;
    }
    proof {
        assert(c.marks.bigints@.take(n as int) =~= c.marks.bigints@);
    }
    r
}

/// Did the marked slot `i` survive to its shifted position with its record
/// rewritten?
pub open spec fn slot_moved_bigints(
    c: CompactionLists,
    old_slots: Seq<Option<BigIntHeapData>>,
    new_slots: Seq<Option<BigIntHeapData>>,
    i: int,
) -> bool {
    let j = i - count_false(c.marks.bigints@.take(i));
    &&& 0 <= j < new_slots.len()
    &&& new_slots[j] is Some
    &&& bigint_record_swept_ok(c, old_slots[i]->Some_0, new_slots[j]->Some_0)
}

/// Compact one kind's arena: drop unmarked slots, shift survivors down,
/// rewriting each survivor's handles.
pub fn compact_bound_functions(c: &CompactionLists, slots: Vec<Option<BoundFunctionHeapData>>) -> (r: Vec<Option<BoundFunctionHeapData>>)
    requires
        c.wf(),
        c.marks.bound_functions@.len() == slots@.len(),
        forall|i: int| 0 <= i < slots@.len() && c.marks.bound_functions@[i] ==> slots@[i] is Some,
        forall|i: int, n: Node|
            0 <= i < slots@.len() && c.marks.bound_functions@[i] && #[trigger] bound_function_edges(
                slots@[i]->Some_0,
            ).contains(n) ==> c.marks.spec_marked(n),
    ensures
        r@.len() == slots@.len() - count_false(c.marks.bound_functions@),
        forall|j: int| 0 <= j < r@.len() ==> r@[j] is Some,
        forall|i: int|
            0 <= i < slots@.len() && c.marks.bound_functions@[i] ==> #[trigger] slot_moved_bound_functions(
                *c,
                slots@,
                r@,
                i,
            ),
{
    let mut remaining = slots;
    let ghost orig = remaining@;
    let n = remaining.len();
    let mut r: Vec<Option<BoundFunctionHeapData>> = Vec::new();
    let mut i: usize = 0;
    proof {
        assert(c.marks.bound_functions@.take(0) =~= Seq::<bool>::empty());
    }
    while i < n
        invariant
            c.wf(),
            n == remaining@.len() == orig.len(),
            c.marks.bound_functions@.len() == n,
            forall|k: int| 0 <= k < n && c.marks.bound_functions@[k] ==> orig[k] is Some,
            forall|k: int, m: Node|
                0 <= k < n && c.marks.bound_functions@[k] && #[trigger] bound_function_edges(orig[k]->Some_0).contains(m)
                    ==> c.marks.spec_marked(m),
            forall|k: int| i <= k < n ==> remaining@[k] == orig[k],
            0 <= i <= n,
            r@.len() == i - count_false(c.marks.bound_functions@.take(i as int)),
            forall|j: int| 0 <= j < r@.len() ==> r@[j] is Some,
            forall|k: int|
                0 <= k < i && c.marks.bound_functions@[k] ==> #[trigger] slot_moved_bound_functions(*c, orig, r@, k),
        decreases n - i,
    {
        proof {
            lemma_count_false_take(c.marks.bound_functions@, i as int);
            lemma_count_false_bounds(c.marks.bound_functions@.take(i as int));
        }
        let ghost pre_r = r@;
        if c.marks.bound_functions[i] {
            let mut slot: Option<BoundFunctionHeapData> = None;
            core::mem::swap(&mut slot, &mut remaining[i]);
            match slot {
                Some(record) => {
                    let swept = sweep_bound_function_record(c, record);
                    r.push(Some(swept));
                    proof {
                        assert(slot_moved_bound_functions(*c, orig, r@, i as int));
                        assert forall|k: int|
                            0 <= k < i + 1 && c.marks.bound_functions@[k] implies #[trigger] slot_moved_bound_functions(
                            *c,
                            orig,
                            r@,
                            k,
                        ) by {
                            if k < i {
                                assert(slot_moved_bound_functions(*c, orig, pre_r, k));
                                lemma_count_false_bounds(c.marks.bound_functions@.take(k));
                            }
                        }
                    }
                },
                None => {
                    proof {
                        assert(false);
                    }
                },
            }
        } else {
            proof {
                assert forall|k: int|
                    0 <= k < i + 1 && c.marks.bound_functions@[k] implies #[trigger] slot_moved_bound_functions(
                    *c,
                    orig,
                    r@,
                    k,
                ) by {
                    assert(k < i);
                    assert(slot_moved_bound_functions(*c, orig, pre_r, k));
                }
            }
        }
        i += 1;
    }
    proof {
        assert(c.marks.bound_functions@.take(n as int) =~= c.marks.bound_functions@);
    }
    r
}

/// Did the marked slot `i` survive to its shifted position with its record
/// rewritten?
pub open spec fn slot_moved_bound_functions(
    c: CompactionLists,
    old_slots: Seq<Option<BoundFunctionHeapData>>,
    new_slots: Seq<Option<BoundFunctionHeapData>>,
    i: int,
) -> bool {
    let j = i - count_false(c.marks.bound_functions@.take(i));
    &&& 0 <= j < new_slots.len()
    &&& new_slots[j] is Some
    &&& bound_function_record_swept_ok(c, old_slots[i]->Some_0, new_slots[j]->Some_0)
}

/// Compact one kind's arena: drop unmarked slots, shift survivors down,
/// rewriting each survivor's handles.
pub fn compact_builtin_functions(c: &CompactionLists, slots: Vec<Option<BuiltinFunctionHeapData>>) -> (r: Vec<Option<BuiltinFunctionHeapData>>)
    requires
        c.wf(),
        c.marks.builtin_functions@.len() == slots@.len(),
        forall|i: int| 0 <= i < slots@.len() && c.marks.builtin_functions@[i] ==> slots@[i] is Some,
        forall|i: int, n: Node|
            0 <= i < slots@.len() && c.marks.builtin_functions@[i] && #[trigger] builtin_function_edges(
                slots@[i]->Some_0,
            ).contains(n) ==> c.marks.spec_marked(n),
    ensures
        r@.len() == slots@.len() - count_false(c.marks.builtin_functions@),
        forall|j: int| 0 <= j < r@.len() ==> r@[j] is Some,
        forall|i: int|
            0 <= i < slots@.len() && c.marks.builtin_functions@[i] ==> #[trigger] slot_moved_builtin_functions(
                *c,
                slots@,
                r@,
                i,
            ),
{
    let mut remaining = slots;
    let ghost orig = remaining@;
    let n = remaining.len();
    let mut r: Vec<Option<BuiltinFunctionHeapData>> = Vec::new();
    let mut i: usize = 0;
    proof {
        assert(c.marks.builtin_functions@.take(0) =~= Seq::<bool>::empty());
    }
    while i < n
        invariant
            c.wf(),
            n == remaining@.len() == orig.len(),
            c.marks.builtin_functions@.len() == n,
            forall|k: int| 0 <= k < n && c.marks.builtin_functions@[k] ==> orig[k] is Some,
            forall|k: int, m: Node|
                0 <= k < n && c.marks.builtin_functions@[k] && #[trigger] builtin_function_edges(orig[k]->Some_0).contains(m)
                    ==> c.marks.spec_marked(m),
            forall|k: int| i <= k < n ==> remaining@[k] == orig[k],
            0 <= i <= n,
            r@.len() == i - count_false(c.marks.builtin_functions@.take(i as int)),
            forall|j: int| 0 <= j < r@.len() ==> r@[j] is Some,
            forall|k: int|
                0 <= k < i && c.marks.builtin_functions@[k] ==> #[trigger] slot_moved_builtin_functions(*c, orig, r@, k),
        decreases n - i,
    {
        proof {
            lemma_count_false_take(c.marks.builtin_functions@, i as int);
            lemma_count_false_bounds(c.marks.builtin_functions@.take(i as int));
        }
        let ghost pre_r = r@;
        if c.marks.builtin_functions[i] {
            let mut slot: Option<BuiltinFunctionHeapData> = None;
            core::mem::swap(&mut slot, &mut remaining[i]);
            match slot {
                Some(record) => {
                    let swept = sweep_builtin_function_record(c, record);
                    r.push(Some(swept));
                    proof {
                        assert(slot_moved_builtin_functions(*c, orig, r@, i as int));
                        assert forall|k: int|
                            0 <= k < i + 1 && c.marks.builtin_functions@[k] implies #[trigger] slot_moved_builtin_functions(
                            *c,
                            orig,
                            r@,
                            k,
                        ) by {
                            if k < i {
                                assert(slot_moved_builtin_functions(*c, orig, pre_r, k));
                                lemma_count_false_bounds(c.marks.builtin_functions@.take(k));
                            }
                        }
                    }
                },
                None => {
                    proof {
                        assert(false);
                    }
                },
            }
        } else {
            proof {
                assert forall|k: int|
                    0 <= k < i + 1 && c.marks.builtin_functions@[k] implies #[trigger] slot_moved_builtin_functions(
                    *c,
                    orig,
                    r@,
                    k,
                ) by {
                    assert(k < i);
                    assert(slot_moved_builtin_functions(*c, orig, pre_r, k));
                }
            }
        }
        i += 1;
    }
    proof {
        assert(c.marks.builtin_functions@.take(n as int) =~= c.marks.builtin_functions@);
    }
    r
}

/// Did the marked slot `i` survive to its shifted position with its record
/// rewritten?
pub open spec fn slot_moved_builtin_functions(
    c: CompactionLists,
    old_slots: Seq<Option<BuiltinFunctionHeapData>>,
    new_slots: Seq<Option<BuiltinFunctionHeapData>>,
    i: int,
) -> bool {
    let j = i - count_false(c.marks.builtin_functions@.take(i));
    &&& 0 <= j < new_slots.len()
    &&& new_slots[j] is Some
    &&& builtin_function_record_swept_ok(c, old_slots[i]->Some_0, new_slots[j]->Some_0)
}

/// Compact one kind's arena: drop unmarked slots, shift survivors down,
/// rewriting each survivor's handles.
pub fn compact_dates(c: &CompactionLists, slots: Vec<Option<DateHeapData<i64>>>) -> (r: Vec<Option<DateHeapData<i64>>>)
    requires
        c.wf(),
        c.marks.dates@.len() == slots@.len(),
        forall|i: int| 0 <= i < slots@.len() && c.marks.dates@[i] ==> slots@[i] is Some,
        forall|i: int, n: Node|
            0 <= i < slots@.len() && c.marks.dates@[i] && #[trigger] date_edges(
                slots@[i]->Some_0,
            ).contains(n) ==> c.marks.spec_marked(n),
    ensures
        r@.len() == slots@.len() - count_false(c.marks.dates@),
        forall|j: int| 0 <= j < r@.len() ==> r@[j] is Some,
        forall|i: int|
            0 <= i < slots@.len() && c.marks.dates@[i] ==> #[trigger] slot_moved_dates(
                *c,
                slots@,
                r@,
                i,
            ),
{
    let mut remaining = slots;
    let ghost orig = remaining@;
    let n = remaining.len();
    let mut r: Vec<Option<DateHeapData<i64>>> = Vec::new();
    let mut i: usize = 0;
    proof {
        assert(c.marks.dates@.take(0) =~= Seq::<bool>::empty());
    }
    while i < n
        invariant
            c.wf(),
            n == remaining@.len() == orig.len(),
            c.marks.dates@.len() == n,
            forall|k: int| 0 <= k < n && c.marks.dates@[k] ==> orig[k] is Some,
            forall|k: int, m: Node|
                0 <= k < n && c.marks.dates@[k] && #[trigger] date_edges(orig[k]->Some_0).contains(m)
                    ==> c.marks.spec_marked(m),
            forall|k: int| i <= k < n ==> remaining@[k] == orig[k],
            0 <= i <= n,
            r@.len() == i - count_false(c.marks.dates@.take(i as int)),
            forall|j: int| 0 <= j < r@.len() ==> r@[j] is Some,
            forall|k: int|
                0 <= k < i && c.marks.dates@[k] ==> #[trigger] slot_moved_dates(*c, orig, r@, k),
        decreases n - i,
    {
        proof {
            lemma_count_false_take(c.marks.dates@, i as int);
            lemma_count_false_bounds(c.marks.dates@.take(i as int));
        }
        let ghost pre_r = r@;
        if c.marks.dates[i] {
            let mut slot: Option<DateHeapData<i64>> = None;
            core::mem::swap(&mut slot, &mut remaining[i]);
            match slot {
                Some(record) => {
                    let swept = sweep_date_record(c, record);
                    r.push(Some(swept));
                    proof {
                        assert(slot_moved_dates(*c, orig, r@, i as int));
                        assert forall|k: int|
                            0 <= k < i + 1 && c.marks.dates@[k] implies #[trigger] slot_moved_dates(
                            *c,
                            orig,
                            r@,
                            k,
                        ) by {
                            if k < i {
                                assert(slot_moved_dates(*c, orig, pre_r, k));
                                lemma_count_false_bounds(c.marks.dates@.take(k));
                            }
                        }
                    }
                },
                None => {
                    proof {
                        assert(false);
                    }
                },
            }
        } else {
            proof {
                assert forall|k: int|
                    0 <= k < i + 1 && c.marks.dates@[k] implies #[trigger] slot_moved_dates(
                    *c,
                    orig,
                    r@,
                    k,
                ) by {
                    assert(k < i);
                    assert(slot_moved_dates(*c, orig, pre_r, k));
                }
            }
        }
        i += 1;
    }
    proof {
        assert(c.marks.dates@.take(n as int) =~= c.marks.dates@);
    }
    r
}

/// Did the marked slot `i` survive to its shifted position with its record
/// rewritten?
pub open spec fn slot_moved_dates(
    c: CompactionLists,
    old_slots: Seq<Option<DateHeapData<i64>>>,
    new_slots: Seq<Option<DateHeapData<i64>>>,
    i: int,
) -> bool {
    let j = i - count_false(c.marks.dates@.take(i));
    &&& 0 <= j < new_slots.len()
    &&& new_slots[j] is Some
    &&& date_record_swept_ok(c, old_slots[i]->Some_0, new_slots[j]->Some_0)
}

/// Compact one kind's arena: drop unmarked slots, shift survivors down,
/// rewriting each survivor's handles.
pub fn compact_ecmascript_functions(c: &CompactionLists, slots: Vec<Option<ECMAScriptFunctionHeapData>>) -> (r: Vec<Option<ECMAScriptFunctionHeapData>>)
    requires
        c.wf(),
        c.marks.ecmascript_functions@.len() == slots@.len(),
        forall|i: int| 0 <= i < slots@.len() && c.marks.ecmascript_functions@[i] ==> slots@[i] is Some,
        forall|i: int, n: Node|
            0 <= i < slots@.len() && c.marks.ecmascript_functions@[i] && #[trigger] ecmascript_function_edges(
                slots@[i]->Some_0,
            ).contains(n) ==> c.marks.spec_marked(n),
    ensures
        r@.len() == slots@.len() - count_false(c.marks.ecmascript_functions@),
        forall|j: int| 0 <= j < r@.len() ==> r@[j] is Some,
        forall|i: int|
            0 <= i < slots@.len() && c.marks.ecmascript_functions@[i] ==> #[trigger] slot_moved_ecmascript_functions(
                *c,
                slots@,
                r@,
                i,
            ),
{
    let mut remaining = slots;
    let ghost orig = remaining@;
    let n = remaining.len();
    let mut r: Vec<Option<ECMAScriptFunctionHeapData>> = Vec::new();
    let mut i: usize = 0;
    proof {
        assert(c.marks.ecmascript_functions@.take(0) =~= Seq::<bool>::empty());
    }
    while i < n
        invariant
            c.wf(),
            n == remaining@.len() == orig.len(),
            c.marks.ecmascript_functions@.len() == n,
            forall|k: int| 0 <= k < n && c.marks.ecmascript_functions@[k] ==> orig[k] is Some,
            forall|k: int, m: Node|
                0 <= k < n && c.marks.ecmascript_functions@[k] && #[trigger] ecmascript_function_edges(orig[k]->Some_0).contains(m)
                    ==> c.marks.spec_marked(m),
            forall|k: int| i <= k < n ==> remaining@[k] == orig[k],
            0 <= i <= n,
            r@.len() == i - count_false(c.marks.ecmascript_functions@.take(i as int)),
            forall|j: int| 0 <= j < r@.len() ==> r@[j] is Some,
            forall|k: int|
                0 <= k < i && c.marks.ecmascript_functions@[k] ==> #[trigger] slot_moved_ecmascript_functions(*c, orig, r@, k),
        decreases n - i,
    {
        proof {
            lemma_count_false_take(c.marks.ecmascript_functions@, i as int);
            lemma_count_false_bounds(c.marks.ecmascript_functions@.take(i as int));
        }
        let ghost pre_r = r@;
        if c.marks.ecmascript_functions[i] {
            let mut slot: Option<ECMAScriptFunctionHeapData> = None;
            core::mem::swap(&mut slot, &mut remaining[i]);
            match slot {
                Some(record) => {
                    let swept = sweep_ecmascript_function_record(c, record);
                    r.push(Some(swept));
                    proof {
                        assert(slot_moved_ecmascript_functions(*c, orig, r@, i as int));
                        assert forall|k: int|
                            0 <= k < i + 1 && c.marks.ecmascript_functions@[k] implies #[trigger] slot_moved_ecmascript_functions(
                            *c,
                            orig,
                            r@,
                            k,
                        ) by {
                            if k < i {
                                assert(slot_moved_ecmascript_functions(*c, orig, pre_r, k));
                                lemma_count_false_bounds(c.marks.ecmascript_functions@.take(k));
                            }
                        }
                    }
                },
                None => {
                    proof {
                        assert(false);
                    }
                },
            }
        } else {
            proof {
                assert forall|k: int|
                    0 <= k < i + 1 && c.marks.ecmascript_functions@[k] implies #[trigger] slot_moved_ecmascript_functions(
                    *c,
                    orig,
                    r@,
                    k,
                ) by {
                    assert(k < i);
                    assert(slot_moved_ecmascript_functions(*c, orig, pre_r, k));
                }
            }
        }
        i += 1;
    }
    proof {
        assert(c.marks.ecmascript_functions@.take(n as int) =~= c.marks.ecmascript_functions@);
    }
    r
}

/// Did the marked slot `i` survive to its shifted position with its record
/// rewritten?
pub open spec fn slot_moved_ecmascript_functions(
    c: CompactionLists,
    old_slots: Seq<Option<ECMAScriptFunctionHeapData>>,
    new_slots: Seq<Option<ECMAScriptFunctionHeapData>>,
    i: int,
) -> bool {
    let j = i - count_false(c.marks.ecmascript_functions@.take(i));
    &&& 0 <= j < new_slots.len()
    &&& new_slots[j] is Some
    &&& ecmascript_function_record_swept_ok(c, old_slots[i]->Some_0, new_slots[j]->Some_0)
}

/// Compact one kind's arena: drop unmarked slots, shift survivors down,
/// rewriting each survivor's handles.
pub fn compact_errors(c: &CompactionLists, slots: Vec<Option<ErrorHeapData>>) -> (r: Vec<Option<ErrorHeapData>>)
    requires
        c.wf(),
        c.marks.errors@.len() == slots@.len(),
        forall|i: int| 0 <= i < slots@.len() && c.marks.errors@[i] ==> slots@[i] is Some,
        forall|i: int, n: Node|
            0 <= i < slots@.len() && c.marks.errors@[i] && #[trigger] error_edges(
                slots@[i]->Some_0,
            ).contains(n) ==> c.marks.spec_marked(n),
    ensures
        r@.len() == slots@.len() - count_false(c.marks.errors@),
        forall|j: int| 0 <= j < r@.len() ==> r@[j] is Some,
        forall|i: int|
            0 <= i < slots@.len() && c.marks.errors@[i] ==> #[trigger] slot_moved_errors(
                *c,
                slots@,
                r@,
                i,
            ),
{
    let mut remaining = slots;
    let ghost orig = remaining@;
    let n = remaining.len();
    let mut r: Vec<Option<ErrorHeapData>> = Vec::new();
    let mut i: usize = 0;
    proof {
        assert(c.marks.errors@.take(0) =~= Seq::<bool>::empty());
    }
    while i < n
        invariant
            c.wf(),
            n == remaining@.len() == orig.len(),
            c.marks.errors@.len() == n,
            forall|k: int| 0 <= k < n && c.marks.errors@[k] ==> orig[k] is Some,
            forall|k: int, m: Node|
                0 <= k < n && c.marks.errors@[k] && #[trigger] error_edges(orig[k]->Some_0).contains(m)
                    ==> c.marks.spec_marked(m),
            forall|k: int| i <= k < n ==> remaining@[k] == orig[k],
            0 <= i <= n,
            r@.len() == i - count_false(c.marks.errors@.take(i as int)),
            forall|j: int| 0 <= j < r@.len() ==> r@[j] is Some,
            forall|k: int|
                0 <= k < i && c.marks.errors@[k] ==> #[trigger] slot_moved_errors(*c, orig, r@, k),
        decreases n - i,
    {
        proof {
            lemma_count_false_take(c.marks.errors@, i as int);
            lemma_count_false_bounds(c.marks.errors@.take(i as int));
        }
        let ghost pre_r = r@;
        if c.marks.errors[i] {
            let mut slot: Option<ErrorHeapData> = None;
            core::mem::swap(&mut slot, &mut remaining[i]);
            match slot {
                Some(record) => {
                    let swept = sweep_error_record(c, record);
                    r.push(Some(swept));
                    proof {
                        assert(slot_moved_errors(*c, orig, r@, i as int));
                        assert forall|k: int|
                            0 <= k < i + 1 && c.marks.errors@[k] implies #[trigger] slot_moved_errors(
                            *c,
                            orig,
                            r@,
                            k,
                        ) by {
                            if k < i {
                                assert(slot_moved_errors(*c, orig, pre_r, k));
                                lemma_count_false_bounds(c.marks.errors@.take(k));
                            }
                        }
                    }
                },
                None => {
                    proof {
                        assert(false);
                    }
                },
            }
        } else {
            proof {
                assert forall|k: int|
                    0 <= k < i + 1 && c.marks.errors@[k] implies #[trigger] slot_moved_errors(
                    *c,
                    orig,
                    r@,
                    k,
                ) by {
                    assert(k < i);
                    assert(slot_moved_errors(*c, orig, pre_r, k));
                }
            }
        }
        i += 1;
    }
    proof {
        assert(c.marks.errors@.take(n as int) =~= c.marks.errors@);
    }
    r
}

/// Did the marked slot `i` survive to its shifted position with its record
/// rewritten?
pub open spec fn slot_moved_errors(
    c: CompactionLists,
    old_slots: Seq<Option<ErrorHeapData>>,
    new_slots: Seq<Option<ErrorHeapData>>,
    i: int,
) -> bool {
    let j = i - count_false(c.marks.errors@.take(i));
    &&& 0 <= j < new_slots.len()
    &&& new_slots[j] is Some
    &&& error_record_swept_ok(c, old_slots[i]->Some_0, new_slots[j]->Some_0)
}

/// Compact one kind's arena: drop unmarked slots, shift survivors down,
/// rewriting each survivor's handles.
pub fn compact_executables(c: &CompactionLists, slots: Vec<Option<ExecutableHeapData>>) -> (r: Vec<Option<ExecutableHeapData>>)
    requires
        c.wf(),
        c.marks.executables@.len() == slots@.len(),
        forall|i: int| 0 <= i < slots@.len() && c.marks.executables@[i] ==> slots@[i] is Some,
        forall|i: int, n: Node|
            0 <= i < slots@.len() && c.marks.executables@[i] && #[trigger] executable_edges(
                slots@[i]->Some_0,
            ).contains(n) ==> c.marks.spec_marked(n),
    ensures
        r@.len() == slots@.len() - count_false(c.marks.executables@),
        forall|j: int| 0 <= j < r@.len() ==> r@[j] is Some,
        forall|i: int|
            0 <= i < slots@.len() && c.marks.executables@[i] ==> #[trigger] slot_moved_executables(
                *c,
                slots@,
                r@,
                i,
            ),
{
    let mut remaining = slots;
    let ghost orig = remaining@;
    let n = remaining.len();
    let mut r: Vec<Option<ExecutableHeapData>> = Vec::new();
    let mut i: usize = 0;
    proof {
        assert(c.marks.executables@.take(0) =~= Seq::<bool>::empty());
    }
    while i < n
        invariant
            c.wf(),
            n == remaining@.len() == orig.len(),
            c.marks.executables@.len() == n,
            forall|k: int| 0 <= k < n && c.marks.executables@[k] ==> orig[k] is Some,
            forall|k: int, m: Node|
                0 <= k < n && c.marks.executables@[k] && #[trigger] executable_edges(orig[k]->Some_0).contains(m)
                    ==> c.marks.spec_marked(m),
            forall|k: int| i <= k < n ==> remaining@[k] == orig[k],
            0 <= i <= n,
            r@.len() == i - count_false(c.marks.executables@.take(i as int)),
            forall|j: int| 0 <= j < r@.len() ==> r@[j] is Some,
            forall|k: int|
                0 <= k < i && c.marks.executables@[k] ==> #[trigger] slot_moved_executables(*c, orig, r@, k),
        decreases n - i,
    {
        proof {
            lemma_count_false_take(c.marks.executables@, i as int);
            lemma_count_false_bounds(c.marks.executables@.take(i as int));
        }
        let ghost pre_r = r@;
        if c.marks.executables[i] {
            let mut slot: Option<ExecutableHeapData> = None;
            core::mem::swap(&mut slot, &mut remaining[i]);
            match slot {
                Some(record) => {
                    let swept = sweep_executable_record(c, record);
                    r.push(Some(swept));
                    proof {
                        assert(slot_moved_executables(*c, orig, r@, i as int));
                        assert forall|k: int|
                            0 <= k < i + 1 && c.marks.executables@[k] implies #[trigger] slot_moved_executables(
                            *c,
                            orig,
                            r@,
                            k,
                        ) by {
                            if k < i {
                                assert(slot_moved_executables(*c, orig, pre_r, k));
                                lemma_count_false_bounds(c.marks.executables@.take(k));
                            }
                        }
                    }
                },
                None => {
                    proof {
                        assert(false);
                    }
                },
            }
        } else {
            proof {
                assert forall|k: int|
                    0 <= k < i + 1 && c.marks.executables@[k] implies #[trigger] slot_moved_executables(
                    *c,
                    orig,
                    r@,
                    k,
                ) by {
                    assert(k < i);
                    assert(slot_moved_executables(*c, orig, pre_r, k));
                }
            }
        }
        i += 1;
    }
    proof {
        assert(c.marks.executables@.take(n as int) =~= c.marks.executables@);
    }
    r
}

/// Did the marked slot `i` survive to its shifted position with its record
/// rewritten?
pub open spec fn slot_moved_executables(
    c: CompactionLists,
    old_slots: Seq<Option<ExecutableHeapData>>,
    new_slots: Seq<Option<ExecutableHeapData>>,
    i: int,
) -> bool {
    let j = i - count_false(c.marks.executables@.take(i));
    &&& 0 <= j < new_slots.len()
    &&& new_slots[j] is Some
    &&& executable_record_swept_ok(c, old_slots[i]->Some_0, new_slots[j]->Some_0)
}

/// Compact one kind's arena: drop unmarked slots, shift survivors down,
/// rewriting each survivor's handles.
pub fn compact_generators(c: &CompactionLists, slots: Vec<Option<GeneratorHeapData>>) -> (r: Vec<Option<GeneratorHeapData>>)
    requires
        c.wf(),
        c.marks.generators@.len() == slots@.len(),
        forall|i: int| 0 <= i < slots@.len() && c.marks.generators@[i] ==> slots@[i] is Some,
        forall|i: int, n: Node|
            0 <= i < slots@.len() && c.marks.generators@[i] && #[trigger] generator_edges(
                slots@[i]->Some_0,
            ).contains(n) ==> c.marks.spec_marked(n),
    ensures
        r@.len() == slots@.len() - count_false(c.marks.generators@),
        forall|j: int| 0 <= j < r@.len() ==> r@[j] is Some,
        forall|i: int|
            0 <= i < slots@.len() && c.marks.generators@[i] ==> #[trigger] slot_moved_generators(
                *c,
                slots@,
                r@,
                i,
            ),
{
    let mut remaining = slots;
    let ghost orig = remaining@;
    let n = remaining.len();
    let mut r: Vec<Option<GeneratorHeapData>> = Vec::new();
    let mut i: usize = 0;
    proof {
        assert(c.marks.generators@.take(0) =~= Seq::<bool>::empty());
    }
    while i < n
        invariant
            c.wf(),
            n == remaining@.len() == orig.len(),
            c.marks.generators@.len() == n,
            forall|k: int| 0 <= k < n && c.marks.generators@[k] ==> orig[k] is Some,
            forall|k: int, m: Node|
                0 <= k < n && c.marks.generators@[k] && #[trigger] generator_edges(orig[k]->Some_0).contains(m)
                    ==> c.marks.spec_marked(m),
            forall|k: int| i <= k < n ==> remaining@[k] == orig[k],
            0 <= i <= n,
            r@.len() == i - count_false(c.marks.generators@.take(i as int)),
            forall|j: int| 0 <= j < r@.len() ==> r@[j] is Some,
            forall|k: int|
                0 <= k < i && c.marks.generators@[k] ==> #[trigger] slot_moved_generators(*c, orig, r@, k),
        decreases n - i,
    {
        proof {
            lemma_count_false_take(c.marks.generators@, i as int);
            lemma_count_false_bounds(c.marks.generators@.take(i as int));
        }
        let ghost pre_r = r@;
        if c.marks.generators[i] {
            let mut slot: Option<GeneratorHeapData> = None;
            core::mem::swap(&mut slot, &mut remaining[i]);
            match slot {
                Some(record) => {
                    let swept = sweep_generator_record(c, record);
                    r.push(Some(swept));
                    proof {
                        assert(slot_moved_generators(*c, orig, r@, i as int));
                        assert forall|k: int|
                            0 <= k < i + 1 && c.marks.generators@[k] implies #[trigger] slot_moved_generators(
                            *c,
                            orig,
                            r@,
                            k,
                        ) by {
                            if k < i {
                                assert(slot_moved_generators(*c, orig, pre_r, k));
                                lemma_count_false_bounds(c.marks.generators@.take(k));
                            }
                        }
                    }
                },
                None => {
                    proof {
                        assert(false);
                    }
                },
            }
        } else {
            proof {
                assert forall|k: int|
                    0 <= k < i + 1 && c.marks.generators@[k] implies #[trigger] slot_moved_generators(
                    *c,
                    orig,
                    r@,
                    k,
                ) by {
                    assert(k < i);
                    assert(slot_moved_generators(*c, orig, pre_r, k));
                }
            }
        }
        i += 1;
    }
    proof {
        assert(c.marks.generators@.take(n as int) =~= c.marks.generators@);
    }
    r
}

/// Did the marked slot `i` survive to its shifted position with its record
/// rewritten?
pub open spec fn slot_moved_generators(
    c: CompactionLists,
    old_slots: Seq<Option<GeneratorHeapData>>,
    new_slots: Seq<Option<GeneratorHeapData>>,
    i: int,
) -> bool {
    let j = i - count_false(c.marks.generators@.take(i));
    &&& 0 <= j < new_slots.len()
    &&& new_slots[j] is Some
    &&& generator_record_swept_ok(c, old_slots[i]->Some_0, new_slots[j]->Some_0)
}

/// Compact one kind's arena: drop unmarked slots, shift survivors down,
/// rewriting each survivor's handles.
pub fn compact_numbers(c: &CompactionLists, slots: Vec<Option<NumberHeapData>>) -> (r: Vec<Option<NumberHeapData>>)
    requires
        c.wf(),
        c.marks.numbers@.len() == slots@.len(),
        forall|i: int| 0 <= i < slots@.len() && c.marks.numbers@[i] ==> slots@[i] is Some,
    ensures
        r@.len() == slots@.len() - count_false(c.marks.numbers@),
        forall|j: int| 0 <= j < r@.len() ==> r@[j] is Some,
        forall|i: int|
            0 <= i < slots@.len() && c.marks.numbers@[i] ==> #[trigger] slot_moved_numbers(
                *c,
                slots@,
                r@,
                i,
            ),
{
    let mut remaining = slots;
    let ghost orig = remaining@;
    let n = remaining.len();
    let mut r: Vec<Option<NumberHeapData>> = Vec::new();
    let mut i: usize = 0;
    proof {
        assert(c.marks.numbers@.take(0) =~= Seq::<bool>::empty());
    }
    while i < n
        invariant
            c.wf(),
            n == remaining@.len() == orig.len(),
            c.marks.numbers@.len() == n,
            forall|k: int| 0 <= k < n && c.marks.numbers@[k] ==> orig[k] is Some,
            forall|k: int| i <= k < n ==> remaining@[k] == orig[k],
            0 <= i <= n,
            r@.len() == i - count_false(c.marks.numbers@.take(i as int)),
            forall|j: int| 0 <= j < r@.len() ==> r@[j] is Some,
            forall|k: int|
                0 <= k < i && c.marks.numbers@[k] ==> #[trigger] slot_moved_numbers(*c, orig, r@, k),
        decreases n - i,
    {
        proof {
            lemma_count_false_take(c.marks.numbers@, i as int);
            lemma_count_false_bounds(c.marks.numbers@.take(i as int));
        }
        let ghost pre_r = r@;
        if c.marks.numbers[i] {
            let mut slot: Option<NumberHeapData> = None;
            core::mem::swap(&mut slot, &mut remaining[i]);
            match slot {
                Some(record) => {
                    let swept = sweep_number_record(c, record);
                    r.push(Some(swept));
                    proof {
                        assert(slot_moved_numbers(*c, orig, r@, i as int));
                        assert forall|k: int|
                            0 <= k < i + 1 && c.marks.numbers@[k] implies #[trigger] slot_moved_numbers(
                            *c,
                            orig,
                            r@,
                            k,
                        ) by {
                            if k < i {
                                assert(slot_moved_numbers(*c, orig, pre_r, k));
                                lemma_count_false_bounds(c.marks.numbers@.take(k));
                            }
                        }
                    }
                },
                None => {
                    proof {
                        assert(false);
                    }
                },
            }
        } else {
            proof {
                assert forall|k: int|
                    0 <= k < i + 1 && c.marks.numbers@[k] implies #[trigger] slot_moved_numbers(
                    *c,
                    orig,
                    r@,
                    k,
                ) by {
                    assert(k < i);
                    assert(slot_moved_numbers(*c, orig, pre_r, k));
                }
            }
        }
        i += 1;
    }
    proof {
        assert(c.marks.numbers@.take(n as int) =~= c.marks.numbers@);
    }
    r
}

/// Did the marked slot `i` survive to its shifted position with its record
/// rewritten?
pub open spec fn slot_moved_numbers(
    c: CompactionLists,
    old_slots: Seq<Option<NumberHeapData>>,
    new_slots: Seq<Option<NumberHeapData>>,
    i: int,
) -> bool {
    let j = i - count_false(c.marks.numbers@.take(i));
    &&& 0 <= j < new_slots.len()
    &&& new_slots[j] is Some
    &&& number_record_swept_ok(c, old_slots[i]->Some_0, new_slots[j]->Some_0)
}

/// Compact one kind's arena: drop unmarked slots, shift survivors down,
/// rewriting each survivor's handles.
pub fn compact_objects(c: &CompactionLists, slots: Vec<Option<ObjectHeapData>>) -> (r: Vec<Option<ObjectHeapData>>)
    requires
        c.wf(),
        c.marks.objects@.len() == slots@.len(),
        forall|i: int| 0 <= i < slots@.len() && c.marks.objects@[i] ==> slots@[i] is Some,
        forall|i: int, n: Node|
            0 <= i < slots@.len() && c.marks.objects@[i] && #[trigger] object_data_edges(
                slots@[i]->Some_0,
            ).contains(n) ==> c.marks.spec_marked(n),
    ensures
        r@.len() == slots@.len() - count_false(c.marks.objects@),
        forall|j: int| 0 <= j < r@.len() ==> r@[j] is Some,
        forall|i: int|
            0 <= i < slots@.len() && c.marks.objects@[i] ==> #[trigger] slot_moved_objects(
                *c,
                slots@,
                r@,
                i,
            ),
{
    let mut remaining = slots;
    let ghost orig = remaining@;
    let n = remaining.len();
    let mut r: Vec<Option<ObjectHeapData>> = Vec::new();
    let mut i: usize = 0;
    proof {
        assert(c.marks.objects@.take(0) =~= Seq::<bool>::empty());
    }
    while i < n
        invariant
            c.wf(),
            n == remaining@.len() == orig.len(),
            c.marks.objects@.len() == n,
            forall|k: int| 0 <= k < n && c.marks.objects@[k] ==> orig[k] is Some,
            forall|k: int, m: Node|
                0 <= k < n && c.marks.objects@[k] && #[trigger] object_data_edges(orig[k]->Some_0).contains(m)
                    ==> c.marks.spec_marked(m),
            forall|k: int| i <= k < n ==> remaining@[k] == orig[k],
            0 <= i <= n,
            r@.len() == i - count_false(c.marks.objects@.take(i as int)),
            forall|j: int| 0 <= j < r@.len() ==> r@[j] is Some,
            forall|k: int|
                0 <= k < i && c.marks.objects@[k] ==> #[trigger] slot_moved_objects(*c, orig, r@, k),
        decreases n - i,
    {
        proof {
            lemma_count_false_take(c.marks.objects@, i as int);
            lemma_count_false_bounds(c.marks.objects@.take(i as int));
        }
        let ghost pre_r = r@;
        if c.marks.objects[i] {
            let mut slot: Option<ObjectHeapData> = None;
            core::mem::swap(&mut slot, &mut remaining[i]);
            match slot {
                Some(record) => {
                    let swept = sweep_object_record(c, record);
                    r.push(Some(swept));
                    proof {
                        assert(slot_moved_objects(*c, orig, r@, i as int));
                        assert forall|k: int|
                            0 <= k < i + 1 && c.marks.objects@[k] implies #[trigger] slot_moved_objects(
                            *c,
                            orig,
                            r@,
                            k,
                        ) by {
                            if k < i {
                                assert(slot_moved_objects(*c, orig, pre_r, k));
                                lemma_count_false_bounds(c.marks.objects@.take(k));
                            }
                        }
                    }
                },
                None => {
                    proof {
                        assert(false);
                    }
                },
            }
        } else {
            proof {
                assert forall|k: int|
                    0 <= k < i + 1 && c.marks.objects@[k] implies #[trigger] slot_moved_objects(
                    *c,
                    orig,
                    r@,
                    k,
                ) by {
                    assert(k < i);
                    assert(slot_moved_objects(*c, orig, pre_r, k));
                }
            }
        }
        i += 1;
    }
    proof {
        assert(c.marks.objects@.take(n as int) =~= c.marks.objects@);
    }
    r
}

/// Did the marked slot `i` survive to its shifted position with its record
/// rewritten?
pub open spec fn slot_moved_objects(
    c: CompactionLists,
    old_slots: Seq<Option<ObjectHeapData>>,
    new_slots: Seq<Option<ObjectHeapData>>,
    i: int,
) -> bool {
    let j = i - count_false(c.marks.objects@.take(i));
    &&& 0 <= j < new_slots.len()
    &&& new_slots[j] is Some
    &&& object_record_swept_ok(c, old_slots[i]->Some_0, new_slots[j]->Some_0)
}

/// Compact one kind's arena: drop unmarked slots, shift survivors down,
/// rewriting each survivor's handles.
pub fn compact_primitive_objects(c: &CompactionLists, slots: Vec<Option<PrimitiveObjectHeapData>>) -> (r: Vec<Option<PrimitiveObjectHeapData>>)
    requires
        c.wf(),
        c.marks.primitive_objects@.len() == slots@.len(),
        forall|i: int| 0 <= i < slots@.len() && c.marks.primitive_objects@[i] ==> slots@[i] is Some,
        forall|i: int, n: Node|
            0 <= i < slots@.len() && c.marks.primitive_objects@[i] && #[trigger] primitive_object_edges(
                slots@[i]->Some_0,
            ).contains(n) ==> c.marks.spec_marked(n),
    ensures
        r@.len() == slots@.len() - count_false(c.marks.primitive_objects@),
        forall|j: int| 0 <= j < r@.len() ==> r@[j] is Some,
        forall|i: int|
            0 <= i < slots@.len() && c.marks.primitive_objects@[i] ==> #[trigger] slot_moved_primitive_objects(
                *c,
                slots@,
                r@,
                i,
            ),
{
    let mut remaining = slots;
    let ghost orig = remaining@;
    let n = remaining.len();
    let mut r: Vec<Option<PrimitiveObjectHeapData>> = Vec::new();
    let mut i: usize = 0;
    proof {
        assert(c.marks.primitive_objects@.take(0) =~= Seq::<bool>::empty());
    }
    while i < n
        invariant
            c.wf(),
            n == remaining@.len() == orig.len(),
            c.marks.primitive_objects@.len() == n,
            forall|k: int| 0 <= k < n && c.marks.primitive_objects@[k] ==> orig[k] is Some,
            forall|k: int, m: Node|
                0 <= k < n && c.marks.primitive_objects@[k] && #[trigger] primitive_object_edges(orig[k]->Some_0).contains(m)
                    ==> c.marks.spec_marked(m),
            forall|k: int| i <= k < n ==> remaining@[k] == orig[k],
            0 <= i <= n,
            r@.len() == i - count_false(c.marks.primitive_objects@.take(i as int)),
            forall|j: int| 0 <= j < r@.len() ==> r@[j] is Some,
            forall|k: int|
                0 <= k < i && c.marks.primitive_objects@[k] ==> #[trigger] slot_moved_primitive_objects(*c, orig, r@, k),
        decreases n - i,
    {
        proof {
            lemma_count_false_take(c.marks.primitive_objects@, i as int);
            lemma_count_false_bounds(c.marks.primitive_objects@.take(i as int));
        }
        let ghost pre_r = r@;
        if c.marks.primitive_objects[i] {
            let mut slot: Option<PrimitiveObjectHeapData> = None;
            core::mem::swap(&mut slot, &mut remaining[i]);
            match slot {
                Some(record) => {
                    let swept = sweep_primitive_object_record(c, record);
                    r.push(Some(swept));
                    proof {
                        assert(slot_moved_primitive_objects(*c, orig, r@, i as int));
                        assert forall|k: int|
                            0 <= k < i + 1 && c.marks.primitive_objects@[k] implies #[trigger] slot_moved_primitive_objects(
                            *c,
                            orig,
                            r@,
                            k,
                        ) by {
                            if k < i {
                                assert(slot_moved_primitive_objects(*c, orig, pre_r, k));
                                lemma_count_false_bounds(c.marks.primitive_objects@.take(k));
                            }
                        }
                    }
                },
                None => {
                    proof {
                        assert(false);
                    }
                },
            }
        } else {
            proof {
                assert forall|k: int|
                    0 <= k < i + 1 && c.marks.primitive_objects@[k] implies #[trigger] slot_moved_primitive_objects(
                    *c,
                    orig,
                    r@,
                    k,
                ) by {
                    assert(k < i);
                    assert(slot_moved_primitive_objects(*c, orig, pre_r, k));
                }
            }
        }
        i += 1;
    }
    proof {
        assert(c.marks.primitive_objects@.take(n as int) =~= c.marks.primitive_objects@);
    }
    r
}

/// Did the marked slot `i` survive to its shifted position with its record
/// rewritten?
pub open spec fn slot_moved_primitive_objects(
    c: CompactionLists,
    old_slots: Seq<Option<PrimitiveObjectHeapData>>,
    new_slots: Seq<Option<PrimitiveObjectHeapData>>,
    i: int,
) -> bool {
    let j = i - count_false(c.marks.primitive_objects@.take(i));
    &&& 0 <= j < new_slots.len()
    &&& new_slots[j] is Some
    &&& primitive_object_record_swept_ok(c, old_slots[i]->Some_0, new_slots[j]->Some_0)
}

/// Compact one kind's arena: drop unmarked slots, shift survivors down,
/// rewriting each survivor's handles.
pub fn compact_promises(c: &CompactionLists, slots: Vec<Option<PromiseHeapData>>) -> (r: Vec<Option<PromiseHeapData>>)
    requires
        c.wf(),
        c.marks.promises@.len() == slots@.len(),
        forall|i: int| 0 <= i < slots@.len() && c.marks.promises@[i] ==> slots@[i] is Some,
        forall|i: int, n: Node|
            0 <= i < slots@.len() && c.marks.promises@[i] && #[trigger] promise_edges(
                slots@[i]->Some_0,
            ).contains(n) ==> c.marks.spec_marked(n),
    ensures
        r@.len() == slots@.len() - count_false(c.marks.promises@),
        forall|j: int| 0 <= j < r@.len() ==> r@[j] is Some,
        forall|i: int|
            0 <= i < slots@.len() && c.marks.promises@[i] ==> #[trigger] slot_moved_promises(
                *c,
                slots@,
                r@,
                i,
            ),
{
    let mut remaining = slots;
    let ghost orig = remaining@;
    let n = remaining.len();
    let mut r: Vec<Option<PromiseHeapData>> = Vec::new();
    let mut i: usize = 0;
    proof {
        assert(c.marks.promises@.take(0) =~= Seq::<bool>::empty());
    }
    while i < n
        invariant
            c.wf(),
            n == remaining@.len() == orig.len(),
            c.marks.promises@.len() == n,
            forall|k: int| 0 <= k < n && c.marks.promises@[k] ==> orig[k] is Some,
            forall|k: int, m: Node|
                0 <= k < n && c.marks.promises@[k] && #[trigger] promise_edges(orig[k]->Some_0).contains(m)
                    ==> c.marks.spec_marked(m),
            forall|k: int| i <= k < n ==> remaining@[k] == orig[k],
            0 <= i <= n,
            r@.len() == i - count_false(c.marks.promises@.take(i as int)),
            forall|j: int| 0 <= j < r@.len() ==> r@[j] is Some,
            forall|k: int|
                0 <= k < i && c.marks.promises@[k] ==> #[trigger] slot_moved_promises(*c, orig, r@, k),
        decreases n - i,
    {
        proof {
            lemma_count_false_take(c.marks.promises@, i as int);
            lemma_count_false_bounds(c.marks.promises@.take(i as int));
        }
        let ghost pre_r = r@;
        if c.marks.promises[i] {
            let mut slot: Option<PromiseHeapData> = None;
            core::mem::swap(&mut slot, &mut remaining[i]);
            match slot {
                Some(record) => {
                    let swept = sweep_promise_record(c, record);
                    r.push(Some(swept));
                    proof {
                        assert(slot_moved_promises(*c, orig, r@, i as int));
                        assert forall|k: int|
                            0 <= k < i + 1 && c.marks.promises@[k] implies #[trigger] slot_moved_promises(
                            *c,
                            orig,
                            r@,
                            k,
                        ) by {
                            if k < i {
                                assert(slot_moved_promises(*c, orig, pre_r, k));
                                lemma_count_false_bounds(c.marks.promises@.take(k));
                            }
                        }
                    }
                },
                None => {
                    proof {
                        assert(false);
                    }
                },
            }
        } else {
            proof {
                assert forall|k: int|
                    0 <= k < i + 1 && c.marks.promises@[k] implies #[trigger] slot_moved_promises(
                    *c,
                    orig,
                    r@,
                    k,
                ) by {
                    assert(k < i);
                    assert(slot_moved_promises(*c, orig, pre_r, k));
                }
            }
        }
        i += 1;
    }
    proof {
        assert(c.marks.promises@.take(n as int) =~= c.marks.promises@);
    }
    r
}

/// Did the marked slot `i` survive to its shifted position with its record
/// rewritten?
pub open spec fn slot_moved_promises(
    c: CompactionLists,
    old_slots: Seq<Option<PromiseHeapData>>,
    new_slots: Seq<Option<PromiseHeapData>>,
    i: int,
) -> bool {
    let j = i - count_false(c.marks.promises@.take(i));
    &&& 0 <= j < new_slots.len()
    &&& new_slots[j] is Some
    &&& promise_record_swept_ok(c, old_slots[i]->Some_0, new_slots[j]->Some_0)
}

/// Compact one kind's arena: drop unmarked slots, shift survivors down,
/// rewriting each survivor's handles.
pub fn compact_regexps(c: &CompactionLists, slots: Vec<Option<RegExpHeapData>>) -> (r: Vec<Option<RegExpHeapData>>)
    requires
        c.wf(),
        c.marks.regexps@.len() == slots@.len(),
        forall|i: int| 0 <= i < slots@.len() && c.marks.regexps@[i] ==> slots@[i] is Some,
        forall|i: int, n: Node|
            0 <= i < slots@.len() && c.marks.regexps@[i] && #[trigger] regexp_edges(
                slots@[i]->Some_0,
            ).contains(n) ==> c.marks.spec_marked(n),
    ensures
        r@.len() == slots@.len() - count_false(c.marks.regexps@),
        forall|j: int| 0 <= j < r@.len() ==> r@[j] is Some,
        forall|i: int|
            0 <= i < slots@.len() && c.marks.regexps@[i] ==> #[trigger] slot_moved_regexps(
                *c,
                slots@,
                r@,
                i,
            ),
{
    let mut remaining = slots;
    let ghost orig = remaining@;
    let n = remaining.len();
    let mut r: Vec<Option<RegExpHeapData>> = Vec::new();
    let mut i: usize = 0;
    proof {
        assert(c.marks.regexps@.take(0) =~= Seq::<bool>::empty());
    }
    while i < n
        invariant
            c.wf(),
            n == remaining@.len() == orig.len(),
            c.marks.regexps@.len() == n,
            forall|k: int| 0 <= k < n && c.marks.regexps@[k] ==> orig[k] is Some,
            forall|k: int, m: Node|
                0 <= k < n && c.marks.regexps@[k] && #[trigger] regexp_edges(orig[k]->Some_0).contains(m)
                    ==> c.marks.spec_marked(m),
            forall|k: int| i <= k < n ==> remaining@[k] == orig[k],
            0 <= i <= n,
            r@.len() == i - count_false(c.marks.regexps@.take(i as int)),
            forall|j: int| 0 <= j < r@.len() ==> r@[j] is Some,
            forall|k: int|
                0 <= k < i && c.marks.regexps@[k] ==> #[trigger] slot_moved_regexps(*c, orig, r@, k),
        decreases n - i,
    {
        proof {
            lemma_count_false_take(c.marks.regexps@, i as int);
            lemma_count_false_bounds(c.marks.regexps@.take(i as int));
        }
        let ghost pre_r = r@;
        if c.marks.regexps[i] {
            let mut slot: Option<RegExpHeapData> = None;
            core::mem::swap(&mut slot, &mut remaining[i]);
            match slot {
                Some(record) => {
                    let swept = sweep_regexp_record(c, record);
                    r.push(Some(swept));
                    proof {
                        assert(slot_moved_regexps(*c, orig, r@, i as int));
                        assert forall|k: int|
                            0 <= k < i + 1 && c.marks.regexps@[k] implies #[trigger] slot_moved_regexps(
                            *c,
                            orig,
                            r@,
                            k,
                        ) by {
                            if k < i {
                                assert(slot_moved_regexps(*c, orig, pre_r, k));
                                lemma_count_false_bounds(c.marks.regexps@.take(k));
                            }
                        }
                    }
                },
                None => {
                    proof {
                        assert(false);
                    }
                },
            }
        } else {
            proof {
                assert forall|k: int|
                    0 <= k < i + 1 && c.marks.regexps@[k] implies #[trigger] slot_moved_regexps(
                    *c,
                    orig,
                    r@,
                    k,
                ) by {
                    assert(k < i);
                    assert(slot_moved_regexps(*c, orig, pre_r, k));
                }
            }
        }
        i += 1;
    }
    proof {
        assert(c.marks.regexps@.take(n as int) =~= c.marks.regexps@);
    }
    r
}

/// Did the marked slot `i` survive to its shifted position with its record
/// rewritten?
pub open spec fn slot_moved_regexps(
    c: CompactionLists,
    old_slots: Seq<Option<RegExpHeapData>>,
    new_slots: Seq<Option<RegExpHeapData>>,
    i: int,
) -> bool {
    let j = i - count_false(c.marks.regexps@.take(i));
    &&& 0 <= j < new_slots.len()
    &&& new_slots[j] is Some
    &&& regexp_record_swept_ok(c, old_slots[i]->Some_0, new_slots[j]->Some_0)
}

/// Compact one kind's arena: drop unmarked slots, shift survivors down,
/// rewriting each survivor's handles.
pub fn compact_sets(c: &CompactionLists, slots: Vec<Option<SetHeapData>>) -> (r: Vec<Option<SetHeapData>>)
    requires
        c.wf(),
        c.marks.sets@.len() == slots@.len(),
        forall|i: int| 0 <= i < slots@.len() && c.marks.sets@[i] ==> slots@[i] is Some,
        forall|i: int, n: Node|
            0 <= i < slots@.len() && c.marks.sets@[i] && #[trigger] set_edges(
                slots@[i]->Some_0,
            ).contains(n) ==> c.marks.spec_marked(n),
    ensures
        r@.len() == slots@.len() - count_false(c.marks.sets@),
        forall|j: int| 0 <= j < r@.len() ==> r@[j] is Some,
        forall|i: int|
            0 <= i < slots@.len() && c.marks.sets@[i] ==> #[trigger] slot_moved_sets(
                *c,
                slots@,
                r@,
                i,
            ),
{
    let mut remaining = slots;
    let ghost orig = remaining@;
    let n = remaining.len();
    let mut r: Vec<Option<SetHeapData>> = Vec::new();
    let mut i: usize = 0;
    proof {
        assert(c.marks.sets@.take(0) =~= Seq::<bool>::empty());
    }
    while i < n
        invariant
            c.wf(),
            n == remaining@.len() == orig.len(),
            c.marks.sets@.len() == n,
            forall|k: int| 0 <= k < n && c.marks.sets@[k] ==> orig[k] is Some,
            forall|k: int, m: Node|
                0 <= k < n && c.marks.sets@[k] && #[trigger] set_edges(orig[k]->Some_0).contains(m)
                    ==> c.marks.spec_marked(m),
            forall|k: int| i <= k < n ==> remaining@[k] == orig[k],
            0 <= i <= n,
            r@.len() == i - count_false(c.marks.sets@.take(i as int)),
            forall|j: int| 0 <= j < r@.len() ==> r@[j] is Some,
            forall|k: int|
                0 <= k < i && c.marks.sets@[k] ==> #[trigger] slot_moved_sets(*c, orig, r@, k),
        decreases n - i,
    {
        proof {
            lemma_count_false_take(c.marks.sets@, i as int);
            lemma_count_false_bounds(c.marks.sets@.take(i as int));
        }
        let ghost pre_r = r@;
        if c.marks.sets[i] {
            let mut slot: Option<SetHeapData> = None;
            core::mem::swap(&mut slot, &mut remaining[i]);
            match slot {
                Some(record) => {
                    let swept = sweep_set_record(c, record);
                    r.push(Some(swept));
                    proof {
                        assert(slot_moved_sets(*c, orig, r@, i as int));
                        assert forall|k: int|
                            0 <= k < i + 1 && c.marks.sets@[k] implies #[trigger] slot_moved_sets(
                            *c,
                            orig,
                            r@,
                            k,
                        ) by {
                            if k < i {
                                assert(slot_moved_sets(*c, orig, pre_r, k));
                                lemma_count_false_bounds(c.marks.sets@.take(k));
                            }
                        }
                    }
                },
                None => {
                    proof {
                        assert(false);
                    }
                },
            }
        } else {
            proof {
                assert forall|k: int|
                    0 <= k < i + 1 && c.marks.sets@[k] implies #[trigger] slot_moved_sets(
                    *c,
                    orig,
                    r@,
                    k,
                ) by {
                    assert(k < i);
                    assert(slot_moved_sets(*c, orig, pre_r, k));
                }
            }
        }
        i += 1;
    }
    proof {
        assert(c.marks.sets@.take(n as int) =~= c.marks.sets@);
    }
    r
}

/// Did the marked slot `i` survive to its shifted position with its record
/// rewritten?
pub open spec fn slot_moved_sets(
    c: CompactionLists,
    old_slots: Seq<Option<SetHeapData>>,
    new_slots: Seq<Option<SetHeapData>>,
    i: int,
) -> bool {
    let j = i - count_false(c.marks.sets@.take(i));
    &&& 0 <= j < new_slots.len()
    &&& new_slots[j] is Some
    &&& set_record_swept_ok(c, old_slots[i]->Some_0, new_slots[j]->Some_0)
}

/// Compact one kind's arena: drop unmarked slots, shift survivors down,
/// rewriting each survivor's handles.
pub fn compact_strings(c: &CompactionLists, slots: Vec<Option<StringHeapData>>) -> (r: Vec<Option<StringHeapData>>)
    requires
        c.wf(),
        c.marks.strings@.len() == slots@.len(),
        forall|i: int| 0 <= i < slots@.len() && c.marks.strings@[i] ==> slots@[i] is Some,
    ensures
        r@.len() == slots@.len() - count_false(c.marks.strings@),
        forall|j: int| 0 <= j < r@.len() ==> r@[j] is Some,
        forall|i: int|
            0 <= i < slots@.len() && c.marks.strings@[i] ==> #[trigger] slot_moved_strings(
                *c,
                slots@,
                r@,
                i,
            ),
{
    let mut remaining = slots;
    let ghost orig = remaining@;
    let n = remaining.len();
    let mut r: Vec<Option<StringHeapData>> = Vec::new();
    let mut i: usize = 0;
    proof {
        assert(c.marks.strings@.take(0) =~= Seq::<bool>::empty());
    }
    while i < n
        invariant
            c.wf(),
            n == remaining@.len() == orig.len(),
            c.marks.strings@.len() == n,
            forall|k: int| 0 <= k < n && c.marks.strings@[k] ==> orig[k] is Some,
            forall|k: int| i <= k < n ==> remaining@[k] == orig[k],
            0 <= i <= n,
            r@.len() == i - count_false(c.marks.strings@.take(i as int)),
            forall|j: int| 0 <= j < r@.len() ==> r@[j] is Some,
            forall|k: int|
                0 <= k < i && c.marks.strings@[k] ==> #[trigger] slot_moved_strings(*c, orig, r@, k),
        decreases n - i,
    {
        proof {
            lemma_count_false_take(c.marks.strings@, i as int);
            lemma_count_false_bounds(c.marks.strings@.take(i as int));
        }
        let ghost pre_r = r@;
        if c.marks.strings[i] {
            let mut slot: Option<StringHeapData> = None;
            core::mem::swap(&mut slot, &mut remaining[i]);
            match slot {
                Some(record) => {
                    let swept = sweep_string_record(c, record);
                    r.push(Some(swept));
                    proof {
                        assert(slot_moved_strings(*c, orig, r@, i as int));
                        assert forall|k: int|
                            0 <= k < i + 1 && c.marks.strings@[k] implies #[trigger] slot_moved_strings(
                            *c,
                            orig,
                            r@,
                            k,
                        ) by {
                            if k < i {
                                assert(slot_moved_strings(*c, orig, pre_r, k));
                                lemma_count_false_bounds(c.marks.strings@.take(k));
                            }
                        }
                    }
                },
                None => {
                    proof {
                        assert(false);
                    }
                },
            }
        } else {
            proof {
                assert forall|k: int|
                    0 <= k < i + 1 && c.marks.strings@[k] implies #[trigger] slot_moved_strings(
                    *c,
                    orig,
                    r@,
                    k,
                ) by {
                    assert(k < i);
                    assert(slot_moved_strings(*c, orig, pre_r, k));
                }
            }
        }
        i += 1;
    }
    proof {
        assert(c.marks.strings@.take(n as int) =~= c.marks.strings@);
    }
    r
}

/// Did the marked slot `i` survive to its shifted position with its record
/// rewritten?
pub open spec fn slot_moved_strings(
    c: CompactionLists,
    old_slots: Seq<Option<StringHeapData>>,
    new_slots: Seq<Option<StringHeapData>>,
    i: int,
) -> bool {
    let j = i - count_false(c.marks.strings@.take(i));
    &&& 0 <= j < new_slots.len()
    &&& new_slots[j] is Some
    &&& string_record_swept_ok(c, old_slots[i]->Some_0, new_slots[j]->Some_0)
}

/// Compact one kind's arena: drop unmarked slots, shift survivors down,
/// rewriting each survivor's handles.
pub fn compact_symbols(c: &CompactionLists, slots: Vec<Option<SymbolHeapData>>) -> (r: Vec<Option<SymbolHeapData>>)
    requires
        c.wf(),
        c.marks.symbols@.len() == slots@.len(),
        forall|i: int| 0 <= i < slots@.len() && c.marks.symbols@[i] ==> slots@[i] is Some,
        forall|i: int, n: Node|
            0 <= i < slots@.len() && c.marks.symbols@[i] && #[trigger] symbol_edges(
                slots@[i]->Some_0,
            ).contains(n) ==> c.marks.spec_marked(n),
    ensures
        r@.len() == slots@.len() - count_false(c.marks.symbols@),
        forall|j: int| 0 <= j < r@.len() ==> r@[j] is Some,
        forall|i: int|
            0 <= i < slots@.len() && c.marks.symbols@[i] ==> #[trigger] slot_moved_symbols(
                *c,
                slots@,
                r@,
                i,
            ),
{
    let mut remaining = slots;
    let ghost orig = remaining@;
    let n = remaining.len();
    let mut r: Vec<Option<SymbolHeapData>> = Vec::new();
    let mut i: usize = 0;
    proof {
        assert(c.marks.symbols@.take(0) =~= Seq::<bool>::empty());
    }
    while i < n
        invariant
            c.wf(),
            n == remaining@.len() == orig.len(),
            c.marks.symbols@.len() == n,
            forall|k: int| 0 <= k < n && c.marks.symbols@[k] ==> orig[k] is Some,
            forall|k: int, m: Node|
                0 <= k < n && c.marks.symbols@[k] && #[trigger] symbol_edges(
                    orig[k]->Some_0,
                ).contains(m) ==> c.marks.spec_marked(m),
            forall|k: int| i <= k < n ==> remaining@[k] == orig[k],
            0 <= i <= n,
            r@.len() == i - count_false(c.marks.symbols@.take(i as int)),
            forall|j: int| 0 <= j < r@.len() ==> r@[j] is Some,
            forall|k: int|
                0 <= k < i && c.marks.symbols@[k] ==> #[trigger] slot_moved_symbols(*c, orig, r@, k),
        decreases n - i,
    {
        proof {
            lemma_count_false_take(c.marks.symbols@, i as int);
            lemma_count_false_bounds(c.marks.symbols@.take(i as int));
        }
        let ghost pre_r = r@;
        if c.marks.symbols[i] {
            let mut slot: Option<SymbolHeapData> = None;
            core::mem::swap(&mut slot, &mut remaining[i]);
            match slot {
                Some(record) => {
                    let swept = sweep_symbol_record(c, record);
                    r.push(Some(swept));
                    proof {
                        assert(slot_moved_symbols(*c, orig, r@, i as int));
                        assert forall|k: int|
                            0 <= k < i + 1 && c.marks.symbols@[k] implies #[trigger] slot_moved_symbols(
                            *c,
                            orig,
                            r@,
                            k,
                        ) by {
                            if k < i {
                                assert(slot_moved_symbols(*c, orig, pre_r, k));
                                lemma_count_false_bounds(c.marks.symbols@.take(k));
                            }
                        }
                    }
                },
                None => {
                    proof {
                        assert(false);
                    }
                },
            }
        } else {
            proof {
                assert forall|k: int|
                    0 <= k < i + 1 && c.marks.symbols@[k] implies #[trigger] slot_moved_symbols(
                    *c,
                    orig,
                    r@,
                    k,
                ) by {
                    assert(k < i);
                    assert(slot_moved_symbols(*c, orig, pre_r, k));
                }
            }
        }
        i += 1;
    }
    proof {
        assert(c.marks.symbols@.take(n as int) =~= c.marks.symbols@);
    }
    r
}

/// Did the marked slot `i` survive to its shifted position with its record
/// rewritten?
pub open spec fn slot_moved_symbols(
    c: CompactionLists,
    old_slots: Seq<Option<SymbolHeapData>>,
    new_slots: Seq<Option<SymbolHeapData>>,
    i: int,
) -> bool {
    let j = i - count_false(c.marks.symbols@.take(i));
    &&& 0 <= j < new_slots.len()
    &&& new_slots[j] is Some
    &&& symbol_record_swept_ok(c, old_slots[i]->Some_0, new_slots[j]->Some_0)
}

/// A weak slot after a pass: kept and rewritten when its target survived,
/// cleared to the no-handle sentinel when its target was unreached, untouched
/// when it holds a stack-only value.
pub open spec fn weak_value_swept_ok(c: CompactionLists, v: Value, r: Option<Value>) -> bool {
    match value_node(v) {
        None => r == Some(v),
        Some(node) => if c.marks.spec_marked(node) {
            r matches Some(w) && value_swept_ok(c, v, w)
        } else {
            r is None
        },
    }
}

/// A weak root slot after a pass.
pub open spec fn weak_slot_swept_ok(
    c: CompactionLists,
    a: Option<Value>,
    b: Option<Value>,
) -> bool {
    match a {
        None => b is None,
        Some(v) => weak_value_swept_ok(c, v, b),
    }
}

/// Rewrite a weakly held value: clear it if its target did not survive.
pub fn sweep_weak_value(c: &CompactionLists, v: Value) -> (r: Option<Value>)
    requires
        c.wf(),
    ensures
        weak_value_swept_ok(*c, v, r),
{
    match v {
        Value::String(h) => if c.marks.is_marked_strings(h) {
            Some(Value::String(c.shift_strings(h)))
        } else {
            None
        },
        Value::Symbol(h) => if c.marks.is_marked_symbols(h) {
            Some(Value::Symbol(c.shift_symbols(h)))
        } else {
            None
        },
        Value::Number(h) => if c.marks.is_marked_numbers(h) {
            Some(Value::Number(c.shift_numbers(h)))
        } else {
            None
        },
        Value::BigInt(h) => if c.marks.is_marked_bigints(h) {
            Some(Value::BigInt(c.shift_bigints(h)))
        } else {
            None
        },
        Value::Object(h) => if c.marks.is_marked_objects(h) {
            Some(Value::Object(c.shift_objects(h)))
        } else {
            None
        },
        Value::BoundFunction(h) => if c.marks.is_marked_bound_functions(h) {
            Some(Value::BoundFunction(c.shift_bound_functions(h)))
        } else {
            None
        },
        Value::BuiltinFunction(h) => if c.marks.is_marked_builtin_functions(h) {
            Some(Value::BuiltinFunction(c.shift_builtin_functions(h)))
        } else {
            None
        },
        Value::ECMAScriptFunction(h) => if c.marks.is_marked_ecmascript_functions(h) {
            Some(Value::ECMAScriptFunction(c.shift_ecmascript_functions(h)))
        } else {
            None
        },
        Value::PrimitiveObject(h) => if c.marks.is_marked_primitive_objects(h) {
            Some(Value::PrimitiveObject(c.shift_primitive_objects(h)))
        } else {
            None
        },
        Value::Arguments(h) => if c.marks.is_marked_objects(h) {
            Some(Value::Arguments(c.shift_objects(h)))
        } else {
            None
        },
        Value::Array(a) => if c.marks.is_marked_arrays(a.0) {
            Some(Value::Array(crate::array::Array(c.shift_arrays(a.0))))
        } else {
            None
        },
        Value::Date(h) => if c.marks.is_marked_dates(h) {
            Some(Value::Date(c.shift_dates(h)))
        } else {
            None
        },
        Value::Error(h) => if c.marks.is_marked_errors(h) {
            Some(Value::Error(c.shift_errors(h)))
        } else {
            None
        },
        Value::Promise(h) => if c.marks.is_marked_promises(h) {
            Some(Value::Promise(c.shift_promises(h)))
        } else {
            None
        },
        Value::RegExp(h) => if c.marks.is_marked_regexps(h) {
            Some(Value::RegExp(c.shift_regexps(h)))
        } else {
            None
        },
        Value::SetObject(s) => if c.marks.is_marked_sets(s.0) {
            Some(Value::SetObject(SetObject(c.shift_sets(s.0))))
        } else {
            None
        },
        Value::AsyncGenerator(g) => if c.marks.is_marked_async_generators(g.0) {
            Some(
                Value::AsyncGenerator(
                    crate::async_generator::AsyncGenerator(c.shift_async_generators(g.0)),
                ),
            )
        } else {
            None
        },
        Value::Generator(h) => if c.marks.is_marked_generators(h) {
            Some(Value::Generator(c.shift_generators(h)))
        } else {
            None
        },
        other => Some(other),
    }
}

/// Every arena is small enough for fresh handles.
pub open spec fn spec_heap_bounded(heap: Heap) -> bool {
    &&& heap.arrays@.len() < u32::MAX
    &&& heap.async_generators@.len() < u32::MAX
    &&& heap.bigints@.len() < u32::MAX
    &&& heap.bound_functions@.len() < u32::MAX
    &&& heap.builtin_functions@.len() < u32::MAX
    &&& heap.dates@.len() < u32::MAX
    &&& heap.ecmascript_functions@.len() < u32::MAX
    &&& heap.errors@.len() < u32::MAX
    &&& heap.executables@.len() < u32::MAX
    &&& heap.generators@.len() < u32::MAX
    &&& heap.numbers@.len() < u32::MAX
    &&& heap.objects@.len() < u32::MAX
    &&& heap.primitive_objects@.len() < u32::MAX
    &&& heap.promises@.len() < u32::MAX
    &&& heap.regexps@.len() < u32::MAX
    &&& heap.sets@.len() < u32::MAX
    &&& heap.strings@.len() < u32::MAX
    &&& heap.symbols@.len() < u32::MAX
}

/// One full collection pass, run with the world stopped: mark everything
/// reachable from the declared root set, drop and compact the rest, and
/// rewrite every surviving handle — in the arenas, the strong roots, the
/// execution-context stack, the realm's intrinsics, and the weak slots.
///
/// The returned tables are the pass's per-kind compaction record: the final
/// mark bits, and for each original slot how many slots before it were
/// removed.
pub fn collect_garbage(agent: &mut Agent) -> (c: CompactionLists)
    requires
        spec_heap_wf(old(agent).heap),
        crate::gc::agent_roots(*old(agent)).subset_of(spec_allocated_set(old(agent).heap)),
        spec_heap_bounded(old(agent).heap),
    ensures
        c.wf(),
        c.marks.fits(old(agent).heap),
        c.marks.marked_set() == spec_reachable(
            old(agent).heap,
            crate::gc::agent_roots(*old(agent)),
        ),
        final(agent).heap.arrays@.len() == old(agent).heap.arrays@.len() - count_false(
            c.marks.arrays@,
        ),
        forall|j: int| 0 <= j < final(agent).heap.arrays@.len() ==> final(agent).heap.arrays@[j] is Some,
        forall|i: int|
            0 <= i < old(agent).heap.arrays@.len() && c.marks.arrays@[i] ==> #[trigger] slot_moved_arrays(
                c,
                old(agent).heap.arrays@,
                final(agent).heap.arrays@,
                i,
            ),
        final(agent).heap.async_generators@.len() == old(agent).heap.async_generators@.len() - count_false(
            c.marks.async_generators@,
        ),
        forall|j: int| 0 <= j < final(agent).heap.async_generators@.len() ==> final(agent).heap.async_generators@[j] is Some,
        forall|i: int|
            0 <= i < old(agent).heap.async_generators@.len() && c.marks.async_generators@[i] ==> #[trigger] slot_moved_async_generators(
                c,
                old(agent).heap.async_generators@,
                final(agent).heap.async_generators@,
                i,
            ),
        final(agent).heap.bigints@.len() == old(agent).heap.bigints@.len() - count_false(
            c.marks.bigints@,
        ),
        forall|j: int| 0 <= j < final(agent).heap.bigints@.len() ==> final(agent).heap.bigints@[j] is Some,
        forall|i: int|
            0 <= i < old(agent).heap.bigints@.len() && c.marks.bigints@[i] ==> #[trigger] slot_moved_bigints(
                c,
                old(agent).heap.bigints@,
                final(agent).heap.bigints@,
                i,
            ),
        final(agent).heap.bound_functions@.len() == old(agent).heap.bound_functions@.len() - count_false(
            c.marks.bound_functions@,
        ),
        forall|j: int| 0 <= j < final(agent).heap.bound_functions@.len() ==> final(agent).heap.bound_functions@[j] is Some,
        forall|i: int|
            0 <= i < old(agent).heap.bound_functions@.len() && c.marks.bound_functions@[i] ==> #[trigger] slot_moved_bound_functions(
                c,
                old(agent).heap.bound_functions@,
                final(agent).heap.bound_functions@,
                i,
            ),
        final(agent).heap.builtin_functions@.len() == old(agent).heap.builtin_functions@.len() - count_false(
            c.marks.builtin_functions@,
        ),
        forall|j: int| 0 <= j < final(agent).heap.builtin_functions@.len() ==> final(agent).heap.builtin_functions@[j] is Some,
        forall|i: int|
            0 <= i < old(agent).heap.builtin_functions@.len() && c.marks.builtin_functions@[i] ==> #[trigger] slot_moved_builtin_functions(
                c,
                old(agent).heap.builtin_functions@,
                final(agent).heap.builtin_functions@,
                i,
            ),
        final(agent).heap.dates@.len() == old(agent).heap.dates@.len() - count_false(
            c.marks.dates@,
        ),
        forall|j: int| 0 <= j < final(agent).heap.dates@.len() ==> final(agent).heap.dates@[j] is Some,
        forall|i: int|
            0 <= i < old(agent).heap.dates@.len() && c.marks.dates@[i] ==> #[trigger] slot_moved_dates(
                c,
                old(agent).heap.dates@,
                final(agent).heap.dates@,
                i,
            ),
        final(agent).heap.ecmascript_functions@.len() == old(agent).heap.ecmascript_functions@.len() - count_false(
            c.marks.ecmascript_functions@,
        ),
        forall|j: int| 0 <= j < final(agent).heap.ecmascript_functions@.len() ==> final(agent).heap.ecmascript_functions@[j] is Some,
        forall|i: int|
            0 <= i < old(agent).heap.ecmascript_functions@.len() && c.marks.ecmascript_functions@[i] ==> #[trigger] slot_moved_ecmascript_functions(
                c,
                old(agent).heap.ecmascript_functions@,
                final(agent).heap.ecmascript_functions@,
                i,
            ),
        final(agent).heap.errors@.len() == old(agent).heap.errors@.len() - count_false(
            c.marks.errors@,
        ),
        forall|j: int| 0 <= j < final(agent).heap.errors@.len() ==> final(agent).heap.errors@[j] is Some,
        forall|i: int|
            0 <= i < old(agent).heap.errors@.len() && c.marks.errors@[i] ==> #[trigger] slot_moved_errors(
                c,
                old(agent).heap.errors@,
                final(agent).heap.errors@,
                i,
            ),
        final(agent).heap.executables@.len() == old(agent).heap.executables@.len() - count_false(
            c.marks.executables@,
        ),
        forall|j: int| 0 <= j < final(agent).heap.executables@.len() ==> final(agent).heap.executables@[j] is Some,
        forall|i: int|
            0 <= i < old(agent).heap.executables@.len() && c.marks.executables@[i] ==> #[trigger] slot_moved_executables(
                c,
                old(agent).heap.executables@,
                final(agent).heap.executables@,
                i,
            ),
        final(agent).heap.generators@.len() == old(agent).heap.generators@.len() - count_false(
            c.marks.generators@,
        ),
        forall|j: int| 0 <= j < final(agent).heap.generators@.len() ==> final(agent).heap.generators@[j] is Some,
        forall|i: int|
            0 <= i < old(agent).heap.generators@.len() && c.marks.generators@[i] ==> #[trigger] slot_moved_generators(
                c,
                old(agent).heap.generators@,
                final(agent).heap.generators@,
                i,
            ),
        final(agent).heap.numbers@.len() == old(agent).heap.numbers@.len() - count_false(
            c.marks.numbers@,
        ),
        forall|j: int| 0 <= j < final(agent).heap.numbers@.len() ==> final(agent).heap.numbers@[j] is Some,
        forall|i: int|
            0 <= i < old(agent).heap.numbers@.len() && c.marks.numbers@[i] ==> #[trigger] slot_moved_numbers(
                c,
                old(agent).heap.numbers@,
                final(agent).heap.numbers@,
                i,
            ),
        final(agent).heap.objects@.len() == old(agent).heap.objects@.len() - count_false(
            c.marks.objects@,
        ),
        forall|j: int| 0 <= j < final(agent).heap.objects@.len() ==> final(agent).heap.objects@[j] is Some,
        forall|i: int|
            0 <= i < old(agent).heap.objects@.len() && c.marks.objects@[i] ==> #[trigger] slot_moved_objects(
                c,
                old(agent).heap.objects@,
                final(agent).heap.objects@,
                i,
            ),
        final(agent).heap.primitive_objects@.len() == old(agent).heap.primitive_objects@.len() - count_false(
            c.marks.primitive_objects@,
        ),
        forall|j: int| 0 <= j < final(agent).heap.primitive_objects@.len() ==> final(agent).heap.primitive_objects@[j] is Some,
        forall|i: int|
            0 <= i < old(agent).heap.primitive_objects@.len() && c.marks.primitive_objects@[i] ==> #[trigger] slot_moved_primitive_objects(
                c,
                old(agent).heap.primitive_objects@,
                final(agent).heap.primitive_objects@,
                i,
            ),
        final(agent).heap.promises@.len() == old(agent).heap.promises@.len() - count_false(
            c.marks.promises@,
        ),
        forall|j: int| 0 <= j < final(agent).heap.promises@.len() ==> final(agent).heap.promises@[j] is Some,
        forall|i: int|
            0 <= i < old(agent).heap.promises@.len() && c.marks.promises@[i] ==> #[trigger] slot_moved_promises(
                c,
                old(agent).heap.promises@,
                final(agent).heap.promises@,
                i,
            ),
        final(agent).heap.regexps@.len() == old(agent).heap.regexps@.len() - count_false(
            c.marks.regexps@,
        ),
        forall|j: int| 0 <= j < final(agent).heap.regexps@.len() ==> final(agent).heap.regexps@[j] is Some,
        forall|i: int|
            0 <= i < old(agent).heap.regexps@.len() && c.marks.regexps@[i] ==> #[trigger] slot_moved_regexps(
                c,
                old(agent).heap.regexps@,
                final(agent).heap.regexps@,
                i,
            ),
        final(agent).heap.sets@.len() == old(agent).heap.sets@.len() - count_false(
            c.marks.sets@,
        ),
        forall|j: int| 0 <= j < final(agent).heap.sets@.len() ==> final(agent).heap.sets@[j] is Some,
        forall|i: int|
            0 <= i < old(agent).heap.sets@.len() && c.marks.sets@[i] ==> #[trigger] slot_moved_sets(
                c,
                old(agent).heap.sets@,
                final(agent).heap.sets@,
                i,
            ),
        final(agent).heap.strings@.len() == old(agent).heap.strings@.len() - count_false(
            c.marks.strings@,
        ),
        forall|j: int| 0 <= j < final(agent).heap.strings@.len() ==> final(agent).heap.strings@[j] is Some,
        forall|i: int|
            0 <= i < old(agent).heap.strings@.len() && c.marks.strings@[i] ==> #[trigger] slot_moved_strings(
                c,
                old(agent).heap.strings@,
                final(agent).heap.strings@,
                i,
            ),
        final(agent).heap.symbols@.len() == old(agent).heap.symbols@.len() - count_false(
            c.marks.symbols@,
        ),
        forall|j: int| 0 <= j < final(agent).heap.symbols@.len() ==> final(agent).heap.symbols@[j] is Some,
        forall|i: int|
            0 <= i < old(agent).heap.symbols@.len() && c.marks.symbols@[i] ==> #[trigger] slot_moved_symbols(
                c,
                old(agent).heap.symbols@,
                final(agent).heap.symbols@,
                i,
            ),
        final(agent).globals@.len() == old(agent).globals@.len(),
        forall|i: int|
            0 <= i < old(agent).globals@.len() ==> value_swept_ok(
                c,
                old(agent).globals@[i],
                #[trigger] final(agent).globals@[i],
            ),
        final(agent).execution_context_stack@.len() == old(agent).execution_context_stack@.len(),
        forall|i: int|
            0 <= i < old(agent).execution_context_stack@.len() ==> context_swept_ok(
                c,
                old(agent).execution_context_stack@[i],
                #[trigger] final(agent).execution_context_stack@[i],
            ),
        final(agent).weak_refs@.len() == old(agent).weak_refs@.len(),
        forall|i: int|
            0 <= i < old(agent).weak_refs@.len() ==> weak_slot_swept_ok(
                c,
                old(agent).weak_refs@[i],
                #[trigger] final(agent).weak_refs@[i],
            ),
        final(agent).realm.intrinsics.object_prototype.index() == spec_shift_idx(
            c,
            HeapKind::Object,
            old(agent).realm.intrinsics.object_prototype.index(),
        ),
{
    let ghost old_heap = agent.heap;
    let ghost roots = crate::gc::agent_roots(*agent);
    let q = crate::gc::build_root_queues(agent);
    let marks = crate::gc::mark(&agent.heap, q);
    let ghost reach = spec_reachable(old_heap, roots);
    proof {
        assert(marks.marked_set() == reach);
        crate::gc::lemma_reachable_allocated(old_heap, roots, );
    }
    let c = CompactionLists::build(marks);
    proof {
        assert forall|n: Node| c.marks.spec_marked(n) implies spec_allocated(old_heap, n) by {
            assert(reach.contains(n));
        }
    }
    {
        let slots = agent.heap.arrays.take_slots();
        proof {
            assert forall|i: int| 0 <= i < slots@.len() && c.marks.arrays@[i] implies slots@[i]
                is Some by {
                let node = Node { kind: HeapKind::Array, idx: i as nat };
                assert(c.marks.spec_marked(node));
                assert(reach.contains(node));
                assert(spec_allocated(old_heap, node));
            }
            assert forall|i: int, n: Node|
                0 <= i < slots@.len() && c.marks.arrays@[i] && #[trigger] array_edges(
                    slots@[i]->Some_0,
                ).contains(n) implies c.marks.spec_marked(n) by {
                let node = Node { kind: HeapKind::Array, idx: i as nat };
                assert(c.marks.spec_marked(node));
                assert(reach.contains(node));
                assert(spec_allocated(old_heap, node));
                assert(spec_heap_edges(old_heap, node) == array_edges(slots@[i]->Some_0));
                crate::gc::lemma_reachable_step(old_heap, roots, node, n);
            }
        }
        let new_slots = compact_arrays(&c, slots);
        agent.heap.arrays.replace_slots(new_slots);
    }
    {
        let slots = agent.heap.async_generators.take_slots();
        proof {
            assert forall|i: int| 0 <= i < slots@.len() && c.marks.async_generators@[i] implies slots@[i]
                is Some by {
                let node = Node { kind: HeapKind::AsyncGenerator, idx: i as nat };
                assert(c.marks.spec_marked(node));
                assert(reach.contains(node));
                assert(spec_allocated(old_heap, node));
            }
            assert forall|i: int, n: Node|
                0 <= i < slots@.len() && c.marks.async_generators@[i] && #[trigger] async_generator_edges(
                    slots@[i]->Some_0,
                ).contains(n) implies c.marks.spec_marked(n) by {
                let node = Node { kind: HeapKind::AsyncGenerator, idx: i as nat };
                assert(c.marks.spec_marked(node));
                assert(reach.contains(node));
                assert(spec_allocated(old_heap, node));
                assert(spec_heap_edges(old_heap, node) == async_generator_edges(slots@[i]->Some_0));
                crate::gc::lemma_reachable_step(old_heap, roots, node, n);
            }
        }
        let new_slots = compact_async_generators(&c, slots);
        agent.heap.async_generators.replace_slots(new_slots);
    }
    {
        let slots = agent.heap.bigints.take_slots();
        proof {
            assert forall|i: int| 0 <= i < slots@.len() && c.marks.bigints@[i] implies slots@[i]
                is Some by {
                let node = Node { kind: HeapKind::BigInt, idx: i as nat };
                assert(c.marks.spec_marked(node));
                assert(reach.contains(node));
                assert(spec_allocated(old_heap, node));
            }

        }
        let new_slots = compact_bigints(&c, slots);
        agent.heap.bigints.replace_slots(new_slots);
    }
    {
        let slots = agent.heap.bound_functions.take_slots();
        proof {
            assert forall|i: int| 0 <= i < slots@.len() && c.marks.bound_functions@[i] implies slots@[i]
                is Some by {
                let node = Node { kind: HeapKind::BoundFunction, idx: i as nat };
                assert(c.marks.spec_marked(node));
                assert(reach.contains(node));
                assert(spec_allocated(old_heap, node));
            }
            assert forall|i: int, n: Node|
                0 <= i < slots@.len() && c.marks.bound_functions@[i] && #[trigger] bound_function_edges(
                    slots@[i]->Some_0,
                ).contains(n) implies c.marks.spec_marked(n) by {
                let node = Node { kind: HeapKind::BoundFunction, idx: i as nat };
                assert(c.marks.spec_marked(node));
                assert(reach.contains(node));
                assert(spec_allocated(old_heap, node));
                assert(spec_heap_edges(old_heap, node) == bound_function_edges(slots@[i]->Some_0));
                crate::gc::lemma_reachable_step(old_heap, roots, node, n);
            }
        }
        let new_slots = compact_bound_functions(&c, slots);
        agent.heap.bound_functions.replace_slots(new_slots);
    }
    {
        let slots = agent.heap.builtin_functions.take_slots();
        proof {
            assert forall|i: int| 0 <= i < slots@.len() && c.marks.builtin_functions@[i] implies slots@[i]
                is Some by {
                let node = Node { kind: HeapKind::BuiltinFunction, idx: i as nat };
                assert(c.marks.spec_marked(node));
                assert(reach.contains(node));
                assert(spec_allocated(old_heap, node));
            }
            assert forall|i: int, n: Node|
                0 <= i < slots@.len() && c.marks.builtin_functions@[i] && #[trigger] builtin_function_edges(
                    slots@[i]->Some_0,
                ).contains(n) implies c.marks.spec_marked(n) by {
                let node = Node { kind: HeapKind::BuiltinFunction, idx: i as nat };
                assert(c.marks.spec_marked(node));
                assert(reach.contains(node));
                assert(spec_allocated(old_heap, node));
                assert(spec_heap_edges(old_heap, node) == builtin_function_edges(slots@[i]->Some_0));
                crate::gc::lemma_reachable_step(old_heap, roots, node, n);
            }
        }
        let new_slots = compact_builtin_functions(&c, slots);
        agent.heap.builtin_functions.replace_slots(new_slots);
    }
    {
        let slots = agent.heap.dates.take_slots();
        proof {
            assert forall|i: int| 0 <= i < slots@.len() && c.marks.dates@[i] implies slots@[i]
                is Some by {
                let node = Node { kind: HeapKind::Date, idx: i as nat };
                assert(c.marks.spec_marked(node));
                assert(reach.contains(node));
                assert(spec_allocated(old_heap, node));
            }
            assert forall|i: int, n: Node|
                0 <= i < slots@.len() && c.marks.dates@[i] && #[trigger] date_edges(
                    slots@[i]->Some_0,
                ).contains(n) implies c.marks.spec_marked(n) by {
                let node = Node { kind: HeapKind::Date, idx: i as nat };
                assert(c.marks.spec_marked(node));
                assert(reach.contains(node));
                assert(spec_allocated(old_heap, node));
                assert(spec_heap_edges(old_heap, node) == date_edges(slots@[i]->Some_0));
                crate::gc::lemma_reachable_step(old_heap, roots, node, n);
            }
        }
        let new_slots = compact_dates(&c, slots);
        agent.heap.dates.replace_slots(new_slots);
    }
    {
        let slots = agent.heap.ecmascript_functions.take_slots();
        proof {
            assert forall|i: int| 0 <= i < slots@.len() && c.marks.ecmascript_functions@[i] implies slots@[i]
                is Some by {
                let node = Node { kind: HeapKind::EcmascriptFunction, idx: i as nat };
                assert(c.marks.spec_marked(node));
                assert(reach.contains(node));
                assert(spec_allocated(old_heap, node));
            }
            assert forall|i: int, n: Node|
                0 <= i < slots@.len() && c.marks.ecmascript_functions@[i] && #[trigger] ecmascript_function_edges(
                    slots@[i]->Some_0,
                ).contains(n) implies c.marks.spec_marked(n) by {
                let node = Node { kind: HeapKind::EcmascriptFunction, idx: i as nat };
                assert(c.marks.spec_marked(node));
                assert(reach.contains(node));
                assert(spec_allocated(old_heap, node));
                assert(spec_heap_edges(old_heap, node) == ecmascript_function_edges(slots@[i]->Some_0));
                crate::gc::lemma_reachable_step(old_heap, roots, node, n);
            }
        }
        let new_slots = compact_ecmascript_functions(&c, slots);
        agent.heap.ecmascript_functions.replace_slots(new_slots);
    }
    {
        let slots = agent.heap.errors.take_slots();
        proof {
            assert forall|i: int| 0 <= i < slots@.len() && c.marks.errors@[i] implies slots@[i]
                is Some by {
                let node = Node { kind: HeapKind::Error, idx: i as nat };
                assert(c.marks.spec_marked(node));
                assert(reach.contains(node));
                assert(spec_allocated(old_heap, node));
            }
            assert forall|i: int, n: Node|
                0 <= i < slots@.len() && c.marks.errors@[i] && #[trigger] error_edges(
                    slots@[i]->Some_0,
                ).contains(n) implies c.marks.spec_marked(n) by {
                let node = Node { kind: HeapKind::Error, idx: i as nat };
                assert(c.marks.spec_marked(node));
                assert(reach.contains(node));
                assert(spec_allocated(old_heap, node));
                assert(spec_heap_edges(old_heap, node) == error_edges(slots@[i]->Some_0));
                crate::gc::lemma_reachable_step(old_heap, roots, node, n);
            }
        }
        let new_slots = compact_errors(&c, slots);
        agent.heap.errors.replace_slots(new_slots);
    }
    {
        let slots = agent.heap.executables.take_slots();
        proof {
            assert forall|i: int| 0 <= i < slots@.len() && c.marks.executables@[i] implies slots@[i]
                is Some by {
                let node = Node { kind: HeapKind::Executable, idx: i as nat };
                assert(c.marks.spec_marked(node));
                assert(reach.contains(node));
                assert(spec_allocated(old_heap, node));
            }
            assert forall|i: int, n: Node|
                0 <= i < slots@.len() && c.marks.executables@[i] && #[trigger] executable_edges(
                    slots@[i]->Some_0,
                ).contains(n) implies c.marks.spec_marked(n) by {
                let node = Node { kind: HeapKind::Executable, idx: i as nat };
                assert(c.marks.spec_marked(node));
                assert(reach.contains(node));
                assert(spec_allocated(old_heap, node));
                assert(spec_heap_edges(old_heap, node) == executable_edges(slots@[i]->Some_0));
                crate::gc::lemma_reachable_step(old_heap, roots, node, n);
            }
        }
        let new_slots = compact_executables(&c, slots);
        agent.heap.executables.replace_slots(new_slots);
    }
    {
        let slots = agent.heap.generators.take_slots();
        proof {
            assert forall|i: int| 0 <= i < slots@.len() && c.marks.generators@[i] implies slots@[i]
                is Some by {
                let node = Node { kind: HeapKind::Generator, idx: i as nat };
                assert(c.marks.spec_marked(node));
                assert(reach.contains(node));
                assert(spec_allocated(old_heap, node));
            }
            assert forall|i: int, n: Node|
                0 <= i < slots@.len() && c.marks.generators@[i] && #[trigger] generator_edges(
                    slots@[i]->Some_0,
                ).contains(n) implies c.marks.spec_marked(n) by {
                let node = Node { kind: HeapKind::Generator, idx: i as nat };
                assert(c.marks.spec_marked(node));
                assert(reach.contains(node));
                assert(spec_allocated(old_heap, node));
                assert(spec_heap_edges(old_heap, node) == generator_edges(slots@[i]->Some_0));
                crate::gc::lemma_reachable_step(old_heap, roots, node, n);
            }
        }
        let new_slots = compact_generators(&c, slots);
        agent.heap.generators.replace_slots(new_slots);
    }
    {
        let slots = agent.heap.numbers.take_slots();
        proof {
            assert forall|i: int| 0 <= i < slots@.len() && c.marks.numbers@[i] implies slots@[i]
                is Some by {
                let node = Node { kind: HeapKind::Number, idx: i as nat };
                assert(c.marks.spec_marked(node));
                assert(reach.contains(node));
                assert(spec_allocated(old_heap, node));
            }

        }
        let new_slots = compact_numbers(&c, slots);
        agent.heap.numbers.replace_slots(new_slots);
    }
    {
        let slots = agent.heap.objects.take_slots();
        proof {
            assert forall|i: int| 0 <= i < slots@.len() && c.marks.objects@[i] implies slots@[i]
                is Some by {
                let node = Node { kind: HeapKind::Object, idx: i as nat };
                assert(c.marks.spec_marked(node));
                assert(reach.contains(node));
                assert(spec_allocated(old_heap, node));
            }
            assert forall|i: int, n: Node|
                0 <= i < slots@.len() && c.marks.objects@[i] && #[trigger] object_data_edges(
                    slots@[i]->Some_0,
                ).contains(n) implies c.marks.spec_marked(n) by {
                let node = Node { kind: HeapKind::Object, idx: i as nat };
                assert(c.marks.spec_marked(node));
                assert(reach.contains(node));
                assert(spec_allocated(old_heap, node));
                assert(spec_heap_edges(old_heap, node) == object_data_edges(slots@[i]->Some_0));
                crate::gc::lemma_reachable_step(old_heap, roots, node, n);
            }
        }
        let new_slots = compact_objects(&c, slots);
        agent.heap.objects.replace_slots(new_slots);
    }
    {
        let slots = agent.heap.primitive_objects.take_slots();
        proof {
            assert forall|i: int| 0 <= i < slots@.len() && c.marks.primitive_objects@[i] implies slots@[i]
                is Some by {
                let node = Node { kind: HeapKind::PrimitiveObject, idx: i as nat };
                assert(c.marks.spec_marked(node));
                assert(reach.contains(node));
                assert(spec_allocated(old_heap, node));
            }
            assert forall|i: int, n: Node|
                0 <= i < slots@.len() && c.marks.primitive_objects@[i] && #[trigger] primitive_object_edges(
                    slots@[i]->Some_0,
                ).contains(n) implies c.marks.spec_marked(n) by {
                let node = Node { kind: HeapKind::PrimitiveObject, idx: i as nat };
                assert(c.marks.spec_marked(node));
                assert(reach.contains(node));
                assert(spec_allocated(old_heap, node));
                assert(spec_heap_edges(old_heap, node) == primitive_object_edges(slots@[i]->Some_0));
                crate::gc::lemma_reachable_step(old_heap, roots, node, n);
            }
        }
        let new_slots = compact_primitive_objects(&c, slots);
        agent.heap.primitive_objects.replace_slots(new_slots);
    }
    {
        let slots = agent.heap.promises.take_slots();
        proof {
            assert forall|i: int| 0 <= i < slots@.len() && c.marks.promises@[i] implies slots@[i]
                is Some by {
                let node = Node { kind: HeapKind::Promise, idx: i as nat };
                assert(c.marks.spec_marked(node));
                assert(reach.contains(node));
                assert(spec_allocated(old_heap, node));
            }
            assert forall|i: int, n: Node|
                0 <= i < slots@.len() && c.marks.promises@[i] && #[trigger] promise_edges(
                    slots@[i]->Some_0,
                ).contains(n) implies c.marks.spec_marked(n) by {
                let node = Node { kind: HeapKind::Promise, idx: i as nat };
                assert(c.marks.spec_marked(node));
                assert(reach.contains(node));
                assert(spec_allocated(old_heap, node));
                assert(spec_heap_edges(old_heap, node) == promise_edges(slots@[i]->Some_0));
                crate::gc::lemma_reachable_step(old_heap, roots, node, n);
            }
        }
        let new_slots = compact_promises(&c, slots);
        agent.heap.promises.replace_slots(new_slots);
    }
    {
        let slots = agent.heap.regexps.take_slots();
        proof {
            assert forall|i: int| 0 <= i < slots@.len() && c.marks.regexps@[i] implies slots@[i]
                is Some by {
                let node = Node { kind: HeapKind::RegExp, idx: i as nat };
                assert(c.marks.spec_marked(node));
                assert(reach.contains(node));
                assert(spec_allocated(old_heap, node));
            }
            assert forall|i: int, n: Node|
                0 <= i < slots@.len() && c.marks.regexps@[i] && #[trigger] regexp_edges(
                    slots@[i]->Some_0,
                ).contains(n) implies c.marks.spec_marked(n) by {
                let node = Node { kind: HeapKind::RegExp, idx: i as nat };
                assert(c.marks.spec_marked(node));
                assert(reach.contains(node));
                assert(spec_allocated(old_heap, node));
                assert(spec_heap_edges(old_heap, node) == regexp_edges(slots@[i]->Some_0));
                crate::gc::lemma_reachable_step(old_heap, roots, node, n);
            }
        }
        let new_slots = compact_regexps(&c, slots);
        agent.heap.regexps.replace_slots(new_slots);
    }
    {
        let slots = agent.heap.sets.take_slots();
        proof {
            assert forall|i: int| 0 <= i < slots@.len() && c.marks.sets@[i] implies slots@[i]
                is Some by {
                let node = Node { kind: HeapKind::SetObject, idx: i as nat };
                assert(c.marks.spec_marked(node));
                assert(reach.contains(node));
                assert(spec_allocated(old_heap, node));
            }
            assert forall|i: int, n: Node|
                0 <= i < slots@.len() && c.marks.sets@[i] && #[trigger] set_edges(
                    slots@[i]->Some_0,
                ).contains(n) implies c.marks.spec_marked(n) by {
                let node = Node { kind: HeapKind::SetObject, idx: i as nat };
                assert(c.marks.spec_marked(node));
                assert(reach.contains(node));
                assert(spec_allocated(old_heap, node));
                assert(spec_heap_edges(old_heap, node) == set_edges(slots@[i]->Some_0));
                crate::gc::lemma_reachable_step(old_heap, roots, node, n);
            }
        }
        let new_slots = compact_sets(&c, slots);
        agent.heap.sets.replace_slots(new_slots);
    }
    {
        let slots = agent.heap.strings.take_slots();
        proof {
            assert forall|i: int| 0 <= i < slots@.len() && c.marks.strings@[i] implies slots@[i]
                is Some by {
                let node = Node { kind: HeapKind::StringData, idx: i as nat };
                assert(c.marks.spec_marked(node));
                assert(reach.contains(node));
                assert(spec_allocated(old_heap, node));
            }

        }
        let new_slots = compact_strings(&c, slots);
        agent.heap.strings.replace_slots(new_slots);
    }
    {
        let slots = agent.heap.symbols.take_slots();
        proof {
            assert forall|i: int| 0 <= i < slots@.len() && c.marks.symbols@[i] implies slots@[i]
                is Some by {
                let node = Node { kind: HeapKind::Symbol, idx: i as nat };
                assert(c.marks.spec_marked(node));
                assert(reach.contains(node));
                assert(spec_allocated(old_heap, node));
            }
            assert forall|i: int, n: Node|
                0 <= i < slots@.len() && c.marks.symbols@[i] && #[trigger] symbol_edges(
                    slots@[i]->Some_0,
                ).contains(n) implies c.marks.spec_marked(n) by {
                let node = Node { kind: HeapKind::Symbol, idx: i as nat };
                assert(c.marks.spec_marked(node));
                assert(reach.contains(node));
                assert(spec_allocated(old_heap, node));
                assert(spec_heap_edges(old_heap, node) == symbol_edges(slots@[i]->Some_0));
                crate::gc::lemma_reachable_step(old_heap, roots, node, n);
            }
        }
        let new_slots = compact_symbols(&c, slots);
        agent.heap.symbols.replace_slots(new_slots);
    }
    // Strong external roots: every value is rewritten in place.
    {
        let mut globals: Vec<Value> = Vec::new();
        core::mem::swap(&mut globals, &mut agent.globals);
        proof {
            crate::gc::lemma_roots_reachable(old_heap, roots);
            assert forall|n: Node| crate::gc::seq_value_nodes(globals@).contains(n)
                implies c.marks.spec_marked(n) by {
                assert(roots.contains(n));
                assert(reach.contains(n));
            }
        }
        let swept = sweep_value_vec(&c, globals);
        agent.globals = swept;
    }
    // The execution-context stack.
    {
        let mut stack: Vec<ExecutionContext> = Vec::new();
        core::mem::swap(&mut stack, &mut agent.execution_context_stack);
        proof {
            crate::gc::lemma_contexts_nodes_all(stack@);
            crate::gc::lemma_roots_reachable(old_heap, roots);
            assert forall|j: int, m: Node|
                0 <= j < stack@.len() && context_edges(stack@[j]).contains(m)
                implies c.marks.spec_marked(m) by {
                assert(crate::gc::contexts_nodes(stack@).contains(m));
                assert(roots.contains(m));
                assert(reach.contains(m));
            }
        }
        let n = stack.len();
        let mut swept: Vec<ExecutionContext> = Vec::new();
        let mut i: usize = 0;
        while i < n
            invariant
                c.wf(),
                n == stack@.len(),
                0 <= i <= n,
                swept@.len() == i,
                forall|j: int|
                    0 <= j < i ==> context_swept_ok(c, stack@[j], #[trigger] swept@[j]),
                forall|j: int, m: Node|
                    0 <= j < n && context_edges(stack@[j]).contains(m) ==> c.marks.spec_marked(m),
            decreases n - i,
        {
            swept.push(sweep_context(&c, &stack[i]));
            i += 1;
        }
        agent.execution_context_stack = swept;
    }
    // The realm's intrinsic objects.
    {
        let intrinsics = agent.realm.intrinsics;
        proof {
            crate::gc::lemma_roots_reachable(old_heap, roots);
            assert(roots.contains(object_node(intrinsics.object_prototype)));
            assert(roots.contains(object_node(intrinsics.function_prototype)));
            assert(roots.contains(object_node(intrinsics.array_prototype)));
            assert(roots.contains(object_node(intrinsics.symbol_prototype)));
            assert(roots.contains(object_node(intrinsics.bigint_prototype)));
            assert(roots.contains(object_node(intrinsics.set_prototype)));
            assert(roots.contains(object_node(intrinsics.generator_prototype)));
            assert(roots.contains(object_node(intrinsics.async_generator_prototype)));
            assert(roots.contains(object_node(intrinsics.promise_prototype)));
        }
        agent.realm.intrinsics = Intrinsics {
            object_prototype: c.shift_objects(intrinsics.object_prototype),
            function_prototype: c.shift_objects(intrinsics.function_prototype),
            array_prototype: c.shift_objects(intrinsics.array_prototype),
            symbol_prototype: c.shift_objects(intrinsics.symbol_prototype),
            bigint_prototype: c.shift_objects(intrinsics.bigint_prototype),
            set_prototype: c.shift_objects(intrinsics.set_prototype),
            generator_prototype: c.shift_objects(intrinsics.generator_prototype),
            async_generator_prototype: c.shift_objects(intrinsics.async_generator_prototype),
            promise_prototype: c.shift_objects(intrinsics.promise_prototype),
        };
    }
    // Weak external slots: unreached targets become the no-handle sentinel.
    {
        let mut weak: Vec<Option<Value>> = Vec::new();
        core::mem::swap(&mut weak, &mut agent.weak_refs);
        let n = weak.len();
        let mut swept: Vec<Option<Value>> = Vec::new();
        let mut i: usize = 0;
        while i < n
            invariant
                c.wf(),
                n == weak@.len(),
                0 <= i <= n,
                swept@.len() == i,
                forall|j: int|
                    0 <= j < i ==> weak_slot_swept_ok(c, weak@[j], #[trigger] swept@[j]),
            decreases n - i,
        {
            match &weak[i] {
                Some(v) => swept.push(sweep_weak_value(&c, *v)),
                None => swept.push(None),
            }
            i += 1;
        }
        agent.weak_refs = swept;
    }
    c
}

impl crate::async_generator::AsyncGenerator {
    /// Rewrite a weakly held generator handle: the renumbered handle when it
    /// survived the pass, the no-handle sentinel when it did not.
    pub fn sweep_weak_reference(self, c: &CompactionLists) -> (r: Option<Self>)
        requires
            c.wf(),
        ensures
            c.marks.spec_marked(async_generator_node(self.0)) ==> (r matches Some(g) && g.0.index()
                == spec_shift_idx(*c, HeapKind::AsyncGenerator, self.0.index())),
            !c.marks.spec_marked(async_generator_node(self.0)) ==> r is None,
    {
        if c.marks.is_marked_async_generators(self.0) {
            Some(crate::async_generator::AsyncGenerator(c.shift_async_generators(self.0)))
        } else {
            None
        }
    }
}

impl crate::async_generator::AsyncGeneratorHeapData {
    /// Rewrite every handle this generator's record holds, in place: its
    /// backing object, its cached executable, the parked snapshot, and the
    /// whole request queue.
    pub fn sweep_values(&mut self, c: &CompactionLists)
        requires
            c.wf(),
            forall|n: Node| async_generator_edges(*old(self)).contains(n) ==> c.marks.spec_marked(
                n,
            ),
        ensures
            async_generator_record_swept_ok(*c, *old(self), *final(self)),
    {
        let mut taken = AsyncGeneratorHeapData {
            object_index: None,
            async_generator_state: None,
            executable: None,
        };
        core::mem::swap(&mut taken, self);
        proof {
            assert forall|n: Node| async_generator_edges(taken).contains(n)
                implies c.marks.spec_marked(n) by {}
        }
        let swept = sweep_async_generator_record(c, taken);
        *self = swept;
    }
}

impl SetObject {
    /// Rewrite this set handle in place after a pass.
    pub fn sweep_values(&mut self, c: &CompactionLists)
        requires
            c.wf(),
            c.marks.spec_marked(crate::gc::set_node(old(self).0)),
        ensures
            final(self).0.index() == spec_shift_idx(*c, HeapKind::SetObject, old(self).0.index()),
    {
        *self = SetObject(c.shift_sets(self.0));
    }
}

impl Value {
    /// Rewrite this value's handle in place after a pass.
    pub fn sweep_values(&mut self, c: &CompactionLists)
        requires
            c.wf(),
            forall|n: Node| value_nodes(*old(self)).contains(n) ==> c.marks.spec_marked(n),
        ensures
            value_swept_ok(*c, *old(self), *final(self)),
    {
        *self = sweep_value(c, *self);
    }
}

} // verus!
