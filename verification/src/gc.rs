//! The mark phase of the garbage collector.
//!
//! Starting from an explicit root set, every reachable record enqueues its
//! out-edges into per-kind work queues until the queues drain. A record is
//! marked at most once; re-enqueuing a marked record is a no-op. The phase is
//! verified to mark exactly the records reachable from the roots.

use vstd::prelude::*;

verus! {

use std::collections::VecDeque;

use crate::array::ArrayIndex;
use crate::async_generator::{
    AsyncGeneratorHeapData, AsyncGeneratorIndex, AsyncGeneratorRequest,
    AsyncGeneratorRequestCompletion, AsyncGeneratorState,
};
use crate::agent::{Agent, ExecutionContext};
use crate::array::ArrayHeapData;
use crate::bigint::HeapBigInt;
use crate::date::{Date, DateHeapData};
use crate::error::{Error, ErrorHeapData};
use crate::function::{
    BoundFunction, BoundFunctionHeapData, BuiltinFunction, BuiltinFunctionHeapData,
    ECMAScriptFunction, ECMAScriptFunctionHeapData,
};
use crate::generator::{Generator, GeneratorHeapData, GeneratorState, SuspendedGeneratorState};
use crate::heap::Heap;
use crate::number::HeapNumber;
use crate::object::{Object, ObjectEntry, ObjectHeapData, OrdinaryObject, PropertyKey};
use crate::primitive_object::{PrimitiveObject, PrimitiveObjectData, PrimitiveObjectHeapData};
use crate::promise::{Promise, PromiseHeapData, PromiseState};
use crate::regexp::{RegExp, RegExpHeapData};
use crate::set_object::{SetHeapData, SetIndex};
use crate::string::{HeapString, JsString};
use crate::symbol::{Symbol, SymbolHeapData};
use crate::value::Value;
use crate::vm::{ExecutableHeapData, Executable, SuspendedVm};

/// The heap kinds, one per arena.
#[derive(Debug, Clone, Copy, PartialEq, Eq, Structural)]
pub enum HeapKind {
    Array,
    AsyncGenerator,
    BigInt,
    BoundFunction,
    BuiltinFunction,
    Date,
    EcmascriptFunction,
    Error,
    Executable,
    Generator,
    Number,
    Object,
    PrimitiveObject,
    Promise,
    RegExp,
    SetObject,
    StringData,
    Symbol,
}

/// One heap record, named by its kind and its 0-based arena slot.
pub struct Node {
    pub kind: HeapKind,
    pub idx: nat,
}

/// The node a array handle denotes.
pub open spec fn array_node(h: ArrayIndex) -> Node {
    Node { kind: HeapKind::Array, idx: h.index() }
}

/// The node a async generator handle denotes.
pub open spec fn async_generator_node(h: AsyncGeneratorIndex) -> Node {
    Node { kind: HeapKind::AsyncGenerator, idx: h.index() }
}

/// The node a bigint handle denotes.
pub open spec fn bigint_node(h: HeapBigInt) -> Node {
    Node { kind: HeapKind::BigInt, idx: h.index() }
}

/// The node a bound function handle denotes.
pub open spec fn bound_function_node(h: BoundFunction) -> Node {
    Node { kind: HeapKind::BoundFunction, idx: h.index() }
}

/// The node a builtin function handle denotes.
pub open spec fn builtin_function_node(h: BuiltinFunction) -> Node {
    Node { kind: HeapKind::BuiltinFunction, idx: h.index() }
}

/// The node a date handle denotes.
pub open spec fn date_node(h: Date) -> Node {
    Node { kind: HeapKind::Date, idx: h.index() }
}

/// The node a ecmascript function handle denotes.
pub open spec fn ecmascript_function_node(h: ECMAScriptFunction) -> Node {
    Node { kind: HeapKind::EcmascriptFunction, idx: h.index() }
}

/// The node a error handle denotes.
pub open spec fn error_node(h: Error) -> Node {
    Node { kind: HeapKind::Error, idx: h.index() }
}

/// The node a executable handle denotes.
pub open spec fn executable_node(h: Executable) -> Node {
    Node { kind: HeapKind::Executable, idx: h.index() }
}

/// The node a generator handle denotes.
pub open spec fn generator_node(h: Generator) -> Node {
    Node { kind: HeapKind::Generator, idx: h.index() }
}

/// The node a number handle denotes.
pub open spec fn number_node(h: HeapNumber) -> Node {
    Node { kind: HeapKind::Number, idx: h.index() }
}

/// The node a object handle denotes.
pub open spec fn object_node(h: OrdinaryObject) -> Node {
    Node { kind: HeapKind::Object, idx: h.index() }
}

/// The node a primitive object handle denotes.
pub open spec fn primitive_object_node(h: PrimitiveObject) -> Node {
    Node { kind: HeapKind::PrimitiveObject, idx: h.index() }
}

/// The node a promise handle denotes.
pub open spec fn promise_node(h: Promise) -> Node {
    Node { kind: HeapKind::Promise, idx: h.index() }
}

/// The node a regexp handle denotes.
pub open spec fn regexp_node(h: RegExp) -> Node {
    Node { kind: HeapKind::RegExp, idx: h.index() }
}

/// The node a set handle denotes.
pub open spec fn set_node(h: SetIndex) -> Node {
    Node { kind: HeapKind::SetObject, idx: h.index() }
}

/// The node a string handle denotes.
pub open spec fn string_node(h: HeapString) -> Node {
    Node { kind: HeapKind::StringData, idx: h.index() }
}

/// The node a symbol handle denotes.
pub open spec fn symbol_node(h: Symbol) -> Node {
    Node { kind: HeapKind::Symbol, idx: h.index() }
}

/// Does some handle in the row denote slot `idx`?
pub open spec fn seq_has_index<K>(s: Seq<crate::indexes::BaseIndex<K>>, idx: nat) -> bool {
    exists|i: int| 0 <= i < s.len() && s[i].index() == idx
}

/// Pushing a handle extends the denoted slots by exactly that handle's slot.
proof fn lemma_seq_has_index_push<K>(s: Seq<crate::indexes::BaseIndex<K>>, h: crate::indexes::BaseIndex<K>)
    ensures
        forall|idx: nat|
            #[trigger] seq_has_index(s.push(h), idx) == (seq_has_index(s, idx) || idx
                == h.index()),
{
    assert forall|idx: nat| #[trigger]
        seq_has_index(s.push(h), idx) == (seq_has_index(s, idx) || idx == h.index()) by {
        let pushed = s.push(h);
        if seq_has_index(s, idx) {
            let i = choose|i: int| 0 <= i < s.len() && s[i].index() == idx;
            assert(pushed[i].index() == idx);
        }
        if idx == h.index() {
            assert(pushed[s.len() as int].index() == idx);
        }
        if seq_has_index(pushed, idx) {
            let i = choose|i: int| 0 <= i < pushed.len() && pushed[i].index() == idx;
            if i < s.len() {
                assert(s[i].index() == idx);
            }
        }
    }
}

/// Popping the last handle can only shrink the denoted slots, and only by the
/// popped handle's slot.
proof fn lemma_seq_has_index_drop_last<K>(s: Seq<crate::indexes::BaseIndex<K>>)
    requires
        s.len() > 0,
    ensures
        forall|idx: nat|
            #[trigger] seq_has_index(s.drop_last(), idx) ==> seq_has_index(s, idx),
        forall|idx: nat|
            #[trigger] seq_has_index(s, idx) ==> (seq_has_index(s.drop_last(), idx) || idx
                == s.last().index()),
{
    assert forall|idx: nat| #[trigger]
        seq_has_index(s.drop_last(), idx) implies seq_has_index(s, idx) by {
        let i = choose|i: int| 0 <= i < s.drop_last().len() && s.drop_last()[i].index() == idx;
        assert(s[i].index() == idx);
    }
    assert forall|idx: nat| #[trigger]
        seq_has_index(s, idx) implies (seq_has_index(s.drop_last(), idx) || idx
        == s.last().index()) by {
        let i = choose|i: int| 0 <= i < s.len() && s[i].index() == idx;
        if i < s.len() - 1 {
            assert(s.drop_last()[i].index() == idx);
        }
    }
}

/// The per-kind work queues of the mark phase.
#[derive(Debug)]
pub struct WorkQueues {
    pub arrays: Vec<ArrayIndex>,
    pub async_generators: Vec<AsyncGeneratorIndex>,
    pub bigints: Vec<HeapBigInt>,
    pub bound_functions: Vec<BoundFunction>,
    pub builtin_functions: Vec<BuiltinFunction>,
    pub dates: Vec<Date>,
    pub ecmascript_functions: Vec<ECMAScriptFunction>,
    pub errors: Vec<Error>,
    pub executables: Vec<Executable>,
    pub generators: Vec<Generator>,
    pub numbers: Vec<HeapNumber>,
    pub objects: Vec<OrdinaryObject>,
    pub primitive_objects: Vec<PrimitiveObject>,
    pub promises: Vec<Promise>,
    pub regexps: Vec<RegExp>,
    pub sets: Vec<SetIndex>,
    pub strings: Vec<HeapString>,
    pub symbols: Vec<Symbol>,
}

impl WorkQueues {
    /// Is the node queued?
    pub open spec fn spec_contains(self, n: Node) -> bool {
        match n.kind {
            HeapKind::Array => seq_has_index(self.arrays@, n.idx),
            HeapKind::AsyncGenerator => seq_has_index(self.async_generators@, n.idx),
            HeapKind::BigInt => seq_has_index(self.bigints@, n.idx),
            HeapKind::BoundFunction => seq_has_index(self.bound_functions@, n.idx),
            HeapKind::BuiltinFunction => seq_has_index(self.builtin_functions@, n.idx),
            HeapKind::Date => seq_has_index(self.dates@, n.idx),
            HeapKind::EcmascriptFunction => seq_has_index(self.ecmascript_functions@, n.idx),
            HeapKind::Error => seq_has_index(self.errors@, n.idx),
            HeapKind::Executable => seq_has_index(self.executables@, n.idx),
            HeapKind::Generator => seq_has_index(self.generators@, n.idx),
            HeapKind::Number => seq_has_index(self.numbers@, n.idx),
            HeapKind::Object => seq_has_index(self.objects@, n.idx),
            HeapKind::PrimitiveObject => seq_has_index(self.primitive_objects@, n.idx),
            HeapKind::Promise => seq_has_index(self.promises@, n.idx),
            HeapKind::RegExp => seq_has_index(self.regexps@, n.idx),
            HeapKind::SetObject => seq_has_index(self.sets@, n.idx),
            HeapKind::StringData => seq_has_index(self.strings@, n.idx),
            HeapKind::Symbol => seq_has_index(self.symbols@, n.idx),
        }
    }

    /// The set of queued nodes.
    pub open spec fn nodes(self) -> Set<Node> {
        Set::new(|n: Node| self.spec_contains(n))
    }

    /// How many handles are queued, duplicates included.
    pub open spec fn total_len(self) -> int {
        self.arrays@.len() as int + self.async_generators@.len() + self.bigints@.len() + self.bound_functions@.len() + self.builtin_functions@.len() + self.dates@.len() + self.ecmascript_functions@.len() + self.errors@.len() + self.executables@.len() + self.generators@.len() + self.numbers@.len() + self.objects@.len() + self.primitive_objects@.len() + self.promises@.len() + self.regexps@.len() + self.sets@.len() + self.strings@.len() + self.symbols@.len()
    }

    /// Empty queues.
    pub fn new() -> (r: Self)
        ensures
            r.nodes() == Set::<Node>::empty(),
            r.total_len() == 0,
    {
        let r = WorkQueues {
            arrays: Vec::new(),
            async_generators: Vec::new(),
            bigints: Vec::new(),
            bound_functions: Vec::new(),
            builtin_functions: Vec::new(),
            dates: Vec::new(),
            ecmascript_functions: Vec::new(),
            errors: Vec::new(),
            executables: Vec::new(),
            generators: Vec::new(),
            numbers: Vec::new(),
            objects: Vec::new(),
            primitive_objects: Vec::new(),
            promises: Vec::new(),
            regexps: Vec::new(),
            sets: Vec::new(),
            strings: Vec::new(),
            symbols: Vec::new(),
        };
        proof {
            assert(r.nodes() =~= Set::<Node>::empty());
        }
        r
    }

    /// Queue a handle of this kind.
    pub fn push_arrays(&mut self, h: ArrayIndex)
        ensures
            final(self).nodes() == old(self).nodes().insert(array_node(h)),
            final(self).total_len() == old(self).total_len() + 1,
    {
        proof {
            lemma_seq_has_index_push(self.arrays@, h);
        }
        self.arrays.push(h);
        proof {
            assert(self.nodes() =~= old(self).nodes().insert(array_node(h)));
        }
    }

    /// Queue a handle of this kind.
    pub fn push_async_generators(&mut self, h: AsyncGeneratorIndex)
        ensures
            final(self).nodes() == old(self).nodes().insert(async_generator_node(h)),
            final(self).total_len() == old(self).total_len() + 1,
    {
        proof {
            lemma_seq_has_index_push(self.async_generators@, h);
        }
        self.async_generators.push(h);
        proof {
            assert(self.nodes() =~= old(self).nodes().insert(async_generator_node(h)));
        }
    }

    /// Queue a handle of this kind.
    pub fn push_bigints(&mut self, h: HeapBigInt)
        ensures
            final(self).nodes() == old(self).nodes().insert(bigint_node(h)),
            final(self).total_len() == old(self).total_len() + 1,
    {
        proof {
            lemma_seq_has_index_push(self.bigints@, h);
        }
        self.bigints.push(h);
        proof {
            assert(self.nodes() =~= old(self).nodes().insert(bigint_node(h)));
        }
    }

    /// Queue a handle of this kind.
    pub fn push_bound_functions(&mut self, h: BoundFunction)
        ensures
            final(self).nodes() == old(self).nodes().insert(bound_function_node(h)),
            final(self).total_len() == old(self).total_len() + 1,
    {
        proof {
            lemma_seq_has_index_push(self.bound_functions@, h);
        }
        self.bound_functions.push(h);
        proof {
            assert(self.nodes() =~= old(self).nodes().insert(bound_function_node(h)));
        }
    }

    /// Queue a handle of this kind.
    pub fn push_builtin_functions(&mut self, h: BuiltinFunction)
        ensures
            final(self).nodes() == old(self).nodes().insert(builtin_function_node(h)),
            final(self).total_len() == old(self).total_len() + 1,
    {
        proof {
            lemma_seq_has_index_push(self.builtin_functions@, h);
        }
        self.builtin_functions.push(h);
        proof {
            assert(self.nodes() =~= old(self).nodes().insert(builtin_function_node(h)));
        }
    }

    /// Queue a handle of this kind.
    pub fn push_dates(&mut self, h: Date)
        ensures
            final(self).nodes() == old(self).nodes().insert(date_node(h)),
            final(self).total_len() == old(self).total_len() + 1,
    {
        proof {
            lemma_seq_has_index_push(self.dates@, h);
        }
        self.dates.push(h);
        proof {
            assert(self.nodes() =~= old(self).nodes().insert(date_node(h)));
        }
    }

    /// Queue a handle of this kind.
    pub fn push_ecmascript_functions(&mut self, h: ECMAScriptFunction)
        ensures
            final(self).nodes() == old(self).nodes().insert(ecmascript_function_node(h)),
            final(self).total_len() == old(self).total_len() + 1,
    {
        proof {
            lemma_seq_has_index_push(self.ecmascript_functions@, h);
        }
        self.ecmascript_functions.push(h);
        proof {
            assert(self.nodes() =~= old(self).nodes().insert(ecmascript_function_node(h)));
        }
    }

    /// Queue a handle of this kind.
    pub fn push_errors(&mut self, h: Error)
        ensures
            final(self).nodes() == old(self).nodes().insert(error_node(h)),
            final(self).total_len() == old(self).total_len() + 1,
    {
        proof {
            lemma_seq_has_index_push(self.errors@, h);
        }
        self.errors.push(h);
        proof {
            assert(self.nodes() =~= old(self).nodes().insert(error_node(h)));
        }
    }

    /// Queue a handle of this kind.
    pub fn push_executables(&mut self, h: Executable)
        ensures
            final(self).nodes() == old(self).nodes().insert(executable_node(h)),
            final(self).total_len() == old(self).total_len() + 1,
    {
        proof {
            lemma_seq_has_index_push(self.executables@, h);
        }
        self.executables.push(h);
        proof {
            assert(self.nodes() =~= old(self).nodes().insert(executable_node(h)));
        }
    }

    /// Queue a handle of this kind.
    pub fn push_generators(&mut self, h: Generator)
        ensures
            final(self).nodes() == old(self).nodes().insert(generator_node(h)),
            final(self).total_len() == old(self).total_len() + 1,
    {
        proof {
            lemma_seq_has_index_push(self.generators@, h);
        }
        self.generators.push(h);
        proof {
            assert(self.nodes() =~= old(self).nodes().insert(generator_node(h)));
        }
    }

    /// Queue a handle of this kind.
    pub fn push_numbers(&mut self, h: HeapNumber)
        ensures
            final(self).nodes() == old(self).nodes().insert(number_node(h)),
            final(self).total_len() == old(self).total_len() + 1,
    {
        proof {
            lemma_seq_has_index_push(self.numbers@, h);
        }
        self.numbers.push(h);
        proof {
            assert(self.nodes() =~= old(self).nodes().insert(number_node(h)));
        }
    }

    /// Queue a handle of this kind.
    pub fn push_objects(&mut self, h: OrdinaryObject)
        ensures
            final(self).nodes() == old(self).nodes().insert(object_node(h)),
            final(self).total_len() == old(self).total_len() + 1,
    {
        proof {
            lemma_seq_has_index_push(self.objects@, h);
        }
        self.objects.push(h);
        proof {
            assert(self.nodes() =~= old(self).nodes().insert(object_node(h)));
        }
    }

    /// Queue a handle of this kind.
    pub fn push_primitive_objects(&mut self, h: PrimitiveObject)
        ensures
            final(self).nodes() == old(self).nodes().insert(primitive_object_node(h)),
            final(self).total_len() == old(self).total_len() + 1,
    {
        proof {
            lemma_seq_has_index_push(self.primitive_objects@, h);
        }
        self.primitive_objects.push(h);
        proof {
            assert(self.nodes() =~= old(self).nodes().insert(primitive_object_node(h)));
        }
    }

    /// Queue a handle of this kind.
    pub fn push_promises(&mut self, h: Promise)
        ensures
            final(self).nodes() == old(self).nodes().insert(promise_node(h)),
            final(self).total_len() == old(self).total_len() + 1,
    {
        proof {
            lemma_seq_has_index_push(self.promises@, h);
        }
        self.promises.push(h);
        proof {
            assert(self.nodes() =~= old(self).nodes().insert(promise_node(h)));
        }
    }

    /// Queue a handle of this kind.
    pub fn push_regexps(&mut self, h: RegExp)
        ensures
            final(self).nodes() == old(self).nodes().insert(regexp_node(h)),
            final(self).total_len() == old(self).total_len() + 1,
    {
        proof {
            lemma_seq_has_index_push(self.regexps@, h);
        }
        self.regexps.push(h);
        proof {
            assert(self.nodes() =~= old(self).nodes().insert(regexp_node(h)));
        }
    }

    /// Queue a handle of this kind.
    pub fn push_sets(&mut self, h: SetIndex)
        ensures
            final(self).nodes() == old(self).nodes().insert(set_node(h)),
            final(self).total_len() == old(self).total_len() + 1,
    {
        proof {
            lemma_seq_has_index_push(self.sets@, h);
        }
        self.sets.push(h);
        proof {
            assert(self.nodes() =~= old(self).nodes().insert(set_node(h)));
        }
    }

    /// Queue a handle of this kind.
    pub fn push_strings(&mut self, h: HeapString)
        ensures
            final(self).nodes() == old(self).nodes().insert(string_node(h)),
            final(self).total_len() == old(self).total_len() + 1,
    {
        proof {
            lemma_seq_has_index_push(self.strings@, h);
        }
        self.strings.push(h);
        proof {
            assert(self.nodes() =~= old(self).nodes().insert(string_node(h)));
        }
    }

    /// Queue a handle of this kind.
    pub fn push_symbols(&mut self, h: Symbol)
        ensures
            final(self).nodes() == old(self).nodes().insert(symbol_node(h)),
            final(self).total_len() == old(self).total_len() + 1,
    {
        proof {
            lemma_seq_has_index_push(self.symbols@, h);
        }
        self.symbols.push(h);
        proof {
            assert(self.nodes() =~= old(self).nodes().insert(symbol_node(h)));
        }
    }

}

/// A handle popped from the work queues, tagged with its kind.
#[derive(Debug)]
pub enum Popped {
    Array(ArrayIndex),
    AsyncGenerator(AsyncGeneratorIndex),
    BigInt(HeapBigInt),
    BoundFunction(BoundFunction),
    BuiltinFunction(BuiltinFunction),
    Date(Date),
    EcmascriptFunction(ECMAScriptFunction),
    Error(Error),
    Executable(Executable),
    Generator(Generator),
    Number(HeapNumber),
    Object(OrdinaryObject),
    PrimitiveObject(PrimitiveObject),
    Promise(Promise),
    RegExp(RegExp),
    SetObject(SetIndex),
    StringData(HeapString),
    Symbol(Symbol),
}

/// The node a popped handle denotes.
pub open spec fn popped_node(p: Popped) -> Node {
    match p {
        Popped::Array(h) => array_node(h),
        Popped::AsyncGenerator(h) => async_generator_node(h),
        Popped::BigInt(h) => bigint_node(h),
        Popped::BoundFunction(h) => bound_function_node(h),
        Popped::BuiltinFunction(h) => builtin_function_node(h),
        Popped::Date(h) => date_node(h),
        Popped::EcmascriptFunction(h) => ecmascript_function_node(h),
        Popped::Error(h) => error_node(h),
        Popped::Executable(h) => executable_node(h),
        Popped::Generator(h) => generator_node(h),
        Popped::Number(h) => number_node(h),
        Popped::Object(h) => object_node(h),
        Popped::PrimitiveObject(h) => primitive_object_node(h),
        Popped::Promise(h) => promise_node(h),
        Popped::RegExp(h) => regexp_node(h),
        Popped::SetObject(h) => set_node(h),
        Popped::StringData(h) => string_node(h),
        Popped::Symbol(h) => symbol_node(h),
    }
}

impl WorkQueues {
    /// Take any queued handle, if one remains.
    pub fn pop_any(&mut self) -> (r: Option<Popped>)
        ensures
            r is None ==> old(self).total_len() == 0 && *final(self) == *old(self) && old(
                self,
            ).nodes() == Set::<Node>::empty(),
            r matches Some(p) ==> {
                &&& old(self).nodes().contains(popped_node(p))
                &&& final(self).nodes().subset_of(old(self).nodes())
                &&& old(self).nodes().subset_of(final(self).nodes().insert(popped_node(p)))
                &&& final(self).total_len() + 1 == old(self).total_len()
            },
    {
        if self.arrays.len() > 0 {
            proof {
                lemma_seq_has_index_drop_last(self.arrays@);
            }
            let h = self.arrays.pop().unwrap();
            proof {
                assert(old(self).nodes().contains(array_node(h)));
                assert(self.nodes().subset_of(old(self).nodes()));
                assert(old(self).nodes().subset_of(self.nodes().insert(array_node(h))));
            }
            return Some(Popped::Array(h));
        }
        if self.async_generators.len() > 0 {
            proof {
                lemma_seq_has_index_drop_last(self.async_generators@);
            }
            let h = self.async_generators.pop().unwrap();
            proof {
                assert(old(self).nodes().contains(async_generator_node(h)));
                assert(self.nodes().subset_of(old(self).nodes()));
                assert(old(self).nodes().subset_of(self.nodes().insert(async_generator_node(h))));
            }
            return Some(Popped::AsyncGenerator(h));
        }
        if self.bigints.len() > 0 {
            proof {
                lemma_seq_has_index_drop_last(self.bigints@);
            }
            let h = self.bigints.pop().unwrap();
            proof {
                assert(old(self).nodes().contains(bigint_node(h)));
                assert(self.nodes().subset_of(old(self).nodes()));
                assert(old(self).nodes().subset_of(self.nodes().insert(bigint_node(h))));
            }
            return Some(Popped::BigInt(h));
        }
        if self.bound_functions.len() > 0 {
            proof {
                lemma_seq_has_index_drop_last(self.bound_functions@);
            }
            let h = self.bound_functions.pop().unwrap();
            proof {
                assert(old(self).nodes().contains(bound_function_node(h)));
                assert(self.nodes().subset_of(old(self).nodes()));
                assert(old(self).nodes().subset_of(self.nodes().insert(bound_function_node(h))));
            }
            return Some(Popped::BoundFunction(h));
        }
        if self.builtin_functions.len() > 0 {
            proof {
                lemma_seq_has_index_drop_last(self.builtin_functions@);
            }
            let h = self.builtin_functions.pop().unwrap();
            proof {
                assert(old(self).nodes().contains(builtin_function_node(h)));
                assert(self.nodes().subset_of(old(self).nodes()));
                assert(old(self).nodes().subset_of(self.nodes().insert(builtin_function_node(h))));
            }
            return Some(Popped::BuiltinFunction(h));
        }
        if self.dates.len() > 0 {
            proof {
                lemma_seq_has_index_drop_last(self.dates@);
            }
            let h = self.dates.pop().unwrap();
            proof {
                assert(old(self).nodes().contains(date_node(h)));
                assert(self.nodes().subset_of(old(self).nodes()));
                assert(old(self).nodes().subset_of(self.nodes().insert(date_node(h))));
            }
            return Some(Popped::Date(h));
        }
        if self.ecmascript_functions.len() > 0 {
            proof {
                lemma_seq_has_index_drop_last(self.ecmascript_functions@);
            }
            let h = self.ecmascript_functions.pop().unwrap();
            proof {
                assert(old(self).nodes().contains(ecmascript_function_node(h)));
                assert(self.nodes().subset_of(old(self).nodes()));
                assert(old(self).nodes().subset_of(self.nodes().insert(ecmascript_function_node(h))));
            }
            return Some(Popped::EcmascriptFunction(h));
        }
        if self.errors.len() > 0 {
            proof {
                lemma_seq_has_index_drop_last(self.errors@);
            }
            let h = self.errors.pop().unwrap();
            proof {
                assert(old(self).nodes().contains(error_node(h)));
                assert(self.nodes().subset_of(old(self).nodes()));
                assert(old(self).nodes().subset_of(self.nodes().insert(error_node(h))));
            }
            return Some(Popped::Error(h));
        }
        if self.executables.len() > 0 {
            proof {
                lemma_seq_has_index_drop_last(self.executables@);
            }
            let h = self.executables.pop().unwrap();
            proof {
                assert(old(self).nodes().contains(executable_node(h)));
                assert(self.nodes().subset_of(old(self).nodes()));
                assert(old(self).nodes().subset_of(self.nodes().insert(executable_node(h))));
            }
            return Some(Popped::Executable(h));
        }
        if self.generators.len() > 0 {
            proof {
                lemma_seq_has_index_drop_last(self.generators@);
            }
            let h = self.generators.pop().unwrap();
            proof {
                assert(old(self).nodes().contains(generator_node(h)));
                assert(self.nodes().subset_of(old(self).nodes()));
                assert(old(self).nodes().subset_of(self.nodes().insert(generator_node(h))));
            }
            return Some(Popped::Generator(h));
        }
        if self.numbers.len() > 0 {
            proof {
                lemma_seq_has_index_drop_last(self.numbers@);
            }
            let h = self.numbers.pop().unwrap();
            proof {
                assert(old(self).nodes().contains(number_node(h)));
                assert(self.nodes().subset_of(old(self).nodes()));
                assert(old(self).nodes().subset_of(self.nodes().insert(number_node(h))));
            }
            return Some(Popped::Number(h));
        }
        if self.objects.len() > 0 {
            proof {
                lemma_seq_has_index_drop_last(self.objects@);
            }
            let h = self.objects.pop().unwrap();
            proof {
                assert(old(self).nodes().contains(object_node(h)));
                assert(self.nodes().subset_of(old(self).nodes()));
                assert(old(self).nodes().subset_of(self.nodes().insert(object_node(h))));
            }
            return Some(Popped::Object(h));
        }
        if self.primitive_objects.len() > 0 {
            proof {
                lemma_seq_has_index_drop_last(self.primitive_objects@);
            }
            let h = self.primitive_objects.pop().unwrap();
            proof {
                assert(old(self).nodes().contains(primitive_object_node(h)));
                assert(self.nodes().subset_of(old(self).nodes()));
                assert(old(self).nodes().subset_of(self.nodes().insert(primitive_object_node(h))));
            }
            return Some(Popped::PrimitiveObject(h));
        }
        if self.promises.len() > 0 {
            proof {
                lemma_seq_has_index_drop_last(self.promises@);
            }
            let h = self.promises.pop().unwrap();
            proof {
                assert(old(self).nodes().contains(promise_node(h)));
                assert(self.nodes().subset_of(old(self).nodes()));
                assert(old(self).nodes().subset_of(self.nodes().insert(promise_node(h))));
            }
            return Some(Popped::Promise(h));
        }
        if self.regexps.len() > 0 {
            proof {
                lemma_seq_has_index_drop_last(self.regexps@);
            }
            let h = self.regexps.pop().unwrap();
            proof {
                assert(old(self).nodes().contains(regexp_node(h)));
                assert(self.nodes().subset_of(old(self).nodes()));
                assert(old(self).nodes().subset_of(self.nodes().insert(regexp_node(h))));
            }
            return Some(Popped::RegExp(h));
        }
        if self.sets.len() > 0 {
            proof {
                lemma_seq_has_index_drop_last(self.sets@);
            }
            let h = self.sets.pop().unwrap();
            proof {
                assert(old(self).nodes().contains(set_node(h)));
                assert(self.nodes().subset_of(old(self).nodes()));
                assert(old(self).nodes().subset_of(self.nodes().insert(set_node(h))));
            }
            return Some(Popped::SetObject(h));
        }
        if self.strings.len() > 0 {
            proof {
                lemma_seq_has_index_drop_last(self.strings@);
            }
            let h = self.strings.pop().unwrap();
            proof {
                assert(old(self).nodes().contains(string_node(h)));
                assert(self.nodes().subset_of(old(self).nodes()));
                assert(old(self).nodes().subset_of(self.nodes().insert(string_node(h))));
            }
            return Some(Popped::StringData(h));
        }
        if self.symbols.len() > 0 {
            proof {
                lemma_seq_has_index_drop_last(self.symbols@);
            }
            let h = self.symbols.pop().unwrap();
            proof {
                assert(old(self).nodes().contains(symbol_node(h)));
                assert(self.nodes().subset_of(old(self).nodes()));
                assert(old(self).nodes().subset_of(self.nodes().insert(symbol_node(h))));
            }
            return Some(Popped::Symbol(h));
        }
        proof {
            assert(self.nodes() =~= Set::<Node>::empty());
        }
        None
    }
}

/// How many slots of the row are unmarked.
pub open spec fn count_false(s: Seq<bool>) -> int
    decreases s.len(),
{
    if s.len() == 0 {
        0
    } else {
        count_false(s.drop_last()) + if s.last() {
            0int
        } else {
            1int
        }
    }
}

/// No row has a negative unmarked count.
proof fn lemma_count_false_nonneg(s: Seq<bool>)
    ensures
        count_false(s) >= 0,
    decreases s.len(),
{
    if s.len() > 0 {
        lemma_count_false_nonneg(s.drop_last());
    }
}

/// Marking one unmarked slot lowers the unmarked count by one.
proof fn lemma_count_false_update(s: Seq<bool>, i: int)
    requires
        0 <= i < s.len(),
        !s[i],
    ensures
        count_false(s.update(i, true)) + 1 == count_false(s),
    decreases s.len(),
{
    let updated = s.update(i, true);
    if i == s.len() - 1 {
        assert(updated.drop_last() =~= s.drop_last());
        assert(updated.last());
    } else {
        assert(updated.drop_last() =~= s.drop_last().update(i, true));
        assert(updated.last() == s.last());
        lemma_count_false_update(s.drop_last(), i);
    }
}

/// A row of unmarked slots.
fn false_row(n: usize) -> (r: Vec<bool>)
    ensures
        r@.len() == n,
        forall|i: int| 0 <= i < n ==> !r@[i],
        count_false(r@) == n,
{
    let mut r: Vec<bool> = Vec::new();
    let mut i: usize = 0;
    while i < n
        invariant
            0 <= i <= n,
            r@.len() == i,
            forall|j: int| 0 <= j < i ==> !r@[j],
            count_false(r@) == i,
        decreases n - i,
    {
        let ghost prev = r@;
        r.push(false);
        proof {
            assert(r@.drop_last() =~= prev);
        }
        i += 1;
    }
    r
}

/// The mark bits, one row per kind, sized to the arenas.
#[derive(Debug)]
pub struct Marks {
    pub arrays: Vec<bool>,
    pub async_generators: Vec<bool>,
    pub bigints: Vec<bool>,
    pub bound_functions: Vec<bool>,
    pub builtin_functions: Vec<bool>,
    pub dates: Vec<bool>,
    pub ecmascript_functions: Vec<bool>,
    pub errors: Vec<bool>,
    pub executables: Vec<bool>,
    pub generators: Vec<bool>,
    pub numbers: Vec<bool>,
    pub objects: Vec<bool>,
    pub primitive_objects: Vec<bool>,
    pub promises: Vec<bool>,
    pub regexps: Vec<bool>,
    pub sets: Vec<bool>,
    pub strings: Vec<bool>,
    pub symbols: Vec<bool>,
}

impl Marks {
    /// Is the node marked?
    pub open spec fn spec_marked(self, n: Node) -> bool {
        match n.kind {
            HeapKind::Array => n.idx < self.arrays@.len() && self.arrays@[n.idx as int],
            HeapKind::AsyncGenerator => n.idx < self.async_generators@.len() && self.async_generators@[n.idx as int],
            HeapKind::BigInt => n.idx < self.bigints@.len() && self.bigints@[n.idx as int],
            HeapKind::BoundFunction => n.idx < self.bound_functions@.len() && self.bound_functions@[n.idx as int],
            HeapKind::BuiltinFunction => n.idx < self.builtin_functions@.len() && self.builtin_functions@[n.idx as int],
            HeapKind::Date => n.idx < self.dates@.len() && self.dates@[n.idx as int],
            HeapKind::EcmascriptFunction => n.idx < self.ecmascript_functions@.len() && self.ecmascript_functions@[n.idx as int],
            HeapKind::Error => n.idx < self.errors@.len() && self.errors@[n.idx as int],
            HeapKind::Executable => n.idx < self.executables@.len() && self.executables@[n.idx as int],
            HeapKind::Generator => n.idx < self.generators@.len() && self.generators@[n.idx as int],
            HeapKind::Number => n.idx < self.numbers@.len() && self.numbers@[n.idx as int],
            HeapKind::Object => n.idx < self.objects@.len() && self.objects@[n.idx as int],
            HeapKind::PrimitiveObject => n.idx < self.primitive_objects@.len() && self.primitive_objects@[n.idx as int],
            HeapKind::Promise => n.idx < self.promises@.len() && self.promises@[n.idx as int],
            HeapKind::RegExp => n.idx < self.regexps@.len() && self.regexps@[n.idx as int],
            HeapKind::SetObject => n.idx < self.sets@.len() && self.sets@[n.idx as int],
            HeapKind::StringData => n.idx < self.strings@.len() && self.strings@[n.idx as int],
            HeapKind::Symbol => n.idx < self.symbols@.len() && self.symbols@[n.idx as int],
        }
    }

    /// The set of marked nodes.
    pub open spec fn marked_set(self) -> Set<Node> {
        Set::new(|n: Node| self.spec_marked(n))
    }

    /// The rows match the arenas of `heap`.
    pub open spec fn fits(self, heap: Heap) -> bool {
        &&& self.arrays@.len() == heap.arrays@.len()
        &&& self.async_generators@.len() == heap.async_generators@.len()
        &&& self.bigints@.len() == heap.bigints@.len()
        &&& self.bound_functions@.len() == heap.bound_functions@.len()
        &&& self.builtin_functions@.len() == heap.builtin_functions@.len()
        &&& self.dates@.len() == heap.dates@.len()
        &&& self.ecmascript_functions@.len() == heap.ecmascript_functions@.len()
        &&& self.errors@.len() == heap.errors@.len()
        &&& self.executables@.len() == heap.executables@.len()
        &&& self.generators@.len() == heap.generators@.len()
        &&& self.numbers@.len() == heap.numbers@.len()
        &&& self.objects@.len() == heap.objects@.len()
        &&& self.primitive_objects@.len() == heap.primitive_objects@.len()
        &&& self.promises@.len() == heap.promises@.len()
        &&& self.regexps@.len() == heap.regexps@.len()
        &&& self.sets@.len() == heap.sets@.len()
        &&& self.strings@.len() == heap.strings@.len()
        &&& self.symbols@.len() == heap.symbols@.len()
    }

    /// How many slots are unmarked, over all kinds.
    pub open spec fn total_unmarked(self) -> int {
        count_false(self.arrays@) + count_false(self.async_generators@) + count_false(self.bigints@) + count_false(self.bound_functions@) + count_false(self.builtin_functions@) + count_false(self.dates@) + count_false(self.ecmascript_functions@) + count_false(self.errors@) + count_false(self.executables@) + count_false(self.generators@) + count_false(self.numbers@) + count_false(self.objects@) + count_false(self.primitive_objects@) + count_false(self.promises@) + count_false(self.regexps@) + count_false(self.sets@) + count_false(self.strings@) + count_false(self.symbols@)
    }

    /// All-unmarked rows sized to the arenas of `heap`.
    pub fn new(heap: &Heap) -> (r: Self)
        ensures
            r.fits(*heap),
            r.marked_set() == Set::<Node>::empty(),
    {
        let arrays = false_row(heap.arrays.len());
        let async_generators = false_row(heap.async_generators.len());
        let bigints = false_row(heap.bigints.len());
        let bound_functions = false_row(heap.bound_functions.len());
        let builtin_functions = false_row(heap.builtin_functions.len());
        let dates = false_row(heap.dates.len());
        let ecmascript_functions = false_row(heap.ecmascript_functions.len());
        let errors = false_row(heap.errors.len());
        let executables = false_row(heap.executables.len());
        let generators = false_row(heap.generators.len());
        let numbers = false_row(heap.numbers.len());
        let objects = false_row(heap.objects.len());
        let primitive_objects = false_row(heap.primitive_objects.len());
        let promises = false_row(heap.promises.len());
        let regexps = false_row(heap.regexps.len());
        let sets = false_row(heap.sets.len());
        let strings = false_row(heap.strings.len());
        let symbols = false_row(heap.symbols.len());
        let r = Marks {
            arrays,
            async_generators,
            bigints,
            bound_functions,
            builtin_functions,
            dates,
            ecmascript_functions,
            errors,
            executables,
            generators,
            numbers,
            objects,
            primitive_objects,
            promises,
            regexps,
            sets,
            strings,
            symbols,
        };
        proof {
            assert(r.marked_set() =~= Set::<Node>::empty());
        }
        r
    }

    /// Is this handle's slot marked?
    pub fn is_marked_arrays(&self, h: ArrayIndex) -> (r: bool)
        ensures
            r == self.spec_marked(array_node(h)),
    {
        let i = h.into_index();
        i < self.arrays.len() && self.arrays[i]
    }

    /// Mark this handle's slot.
    pub fn set_arrays(&mut self, h: ArrayIndex)
        requires
            h.index() < old(self).arrays@.len(),
            !old(self).spec_marked(array_node(h)),
        ensures
            final(self).marked_set() == old(self).marked_set().insert(array_node(h)),
            final(self).total_unmarked() + 1 == old(self).total_unmarked(),
            forall|heap: Heap| old(self).fits(heap) ==> final(self).fits(heap),
    {
        let i = h.into_index();
        proof {
            lemma_count_false_update(self.arrays@, i as int);
        }
        self.arrays[i] = true;
        proof {
            assert(self.marked_set() =~= old(self).marked_set().insert(array_node(h)));
        }
    }

    /// Is this handle's slot marked?
    pub fn is_marked_async_generators(&self, h: AsyncGeneratorIndex) -> (r: bool)
        ensures
            r == self.spec_marked(async_generator_node(h)),
    {
        let i = h.into_index();
        i < self.async_generators.len() && self.async_generators[i]
    }

    /// Mark this handle's slot.
    pub fn set_async_generators(&mut self, h: AsyncGeneratorIndex)
        requires
            h.index() < old(self).async_generators@.len(),
            !old(self).spec_marked(async_generator_node(h)),
        ensures
            final(self).marked_set() == old(self).marked_set().insert(async_generator_node(h)),
            final(self).total_unmarked() + 1 == old(self).total_unmarked(),
            forall|heap: Heap| old(self).fits(heap) ==> final(self).fits(heap),
    {
        let i = h.into_index();
        proof {
            lemma_count_false_update(self.async_generators@, i as int);
        }
        self.async_generators[i] = true;
        proof {
            assert(self.marked_set() =~= old(self).marked_set().insert(async_generator_node(h)));
        }
    }

    /// Is this handle's slot marked?
    pub fn is_marked_bigints(&self, h: HeapBigInt) -> (r: bool)
        ensures
            r == self.spec_marked(bigint_node(h)),
    {
        let i = h.into_index();
        i < self.bigints.len() && self.bigints[i]
    }

    /// Mark this handle's slot.
    pub fn set_bigints(&mut self, h: HeapBigInt)
        requires
            h.index() < old(self).bigints@.len(),
            !old(self).spec_marked(bigint_node(h)),
        ensures
            final(self).marked_set() == old(self).marked_set().insert(bigint_node(h)),
            final(self).total_unmarked() + 1 == old(self).total_unmarked(),
            forall|heap: Heap| old(self).fits(heap) ==> final(self).fits(heap),
    {
        let i = h.into_index();
        proof {
            lemma_count_false_update(self.bigints@, i as int);
        }
        self.bigints[i] = true;
        proof {
            assert(self.marked_set() =~= old(self).marked_set().insert(bigint_node(h)));
        }
    }

    /// Is this handle's slot marked?
    pub fn is_marked_bound_functions(&self, h: BoundFunction) -> (r: bool)
        ensures
            r == self.spec_marked(bound_function_node(h)),
    {
        let i = h.into_index();
        i < self.bound_functions.len() && self.bound_functions[i]
    }

    /// Mark this handle's slot.
    pub fn set_bound_functions(&mut self, h: BoundFunction)
        requires
            h.index() < old(self).bound_functions@.len(),
            !old(self).spec_marked(bound_function_node(h)),
        ensures
            final(self).marked_set() == old(self).marked_set().insert(bound_function_node(h)),
            final(self).total_unmarked() + 1 == old(self).total_unmarked(),
            forall|heap: Heap| old(self).fits(heap) ==> final(self).fits(heap),
    {
        let i = h.into_index();
        proof {
            lemma_count_false_update(self.bound_functions@, i as int);
        }
        self.bound_functions[i] = true;
        proof {
            assert(self.marked_set() =~= old(self).marked_set().insert(bound_function_node(h)));
        }
    }

    /// Is this handle's slot marked?
    pub fn is_marked_builtin_functions(&self, h: BuiltinFunction) -> (r: bool)
        ensures
            r == self.spec_marked(builtin_function_node(h)),
    {
        let i = h.into_index();
        i < self.builtin_functions.len() && self.builtin_functions[i]
    }

    /// Mark this handle's slot.
    pub fn set_builtin_functions(&mut self, h: BuiltinFunction)
        requires
            h.index() < old(self).builtin_functions@.len(),
            !old(self).spec_marked(builtin_function_node(h)),
        ensures
            final(self).marked_set() == old(self).marked_set().insert(builtin_function_node(h)),
            final(self).total_unmarked() + 1 == old(self).total_unmarked(),
            forall|heap: Heap| old(self).fits(heap) ==> final(self).fits(heap),
    {
        let i = h.into_index();
        proof {
            lemma_count_false_update(self.builtin_functions@, i as int);
        }
        self.builtin_functions[i] = true;
        proof {
            assert(self.marked_set() =~= old(self).marked_set().insert(builtin_function_node(h)));
        }
    }

    /// Is this handle's slot marked?
    pub fn is_marked_dates(&self, h: Date) -> (r: bool)
        ensures
            r == self.spec_marked(date_node(h)),
    {
        let i = h.into_index();
        i < self.dates.len() && self.dates[i]
    }

    /// Mark this handle's slot.
    pub fn set_dates(&mut self, h: Date)
        requires
            h.index() < old(self).dates@.len(),
            !old(self).spec_marked(date_node(h)),
        ensures
            final(self).marked_set() == old(self).marked_set().insert(date_node(h)),
            final(self).total_unmarked() + 1 == old(self).total_unmarked(),
            forall|heap: Heap| old(self).fits(heap) ==> final(self).fits(heap),
    {
        let i = h.into_index();
        proof {
            lemma_count_false_update(self.dates@, i as int);
        }
        self.dates[i] = true;
        proof {
            assert(self.marked_set() =~= old(self).marked_set().insert(date_node(h)));
        }
    }

    /// Is this handle's slot marked?
    pub fn is_marked_ecmascript_functions(&self, h: ECMAScriptFunction) -> (r: bool)
        ensures
            r == self.spec_marked(ecmascript_function_node(h)),
    {
        let i = h.into_index();
        i < self.ecmascript_functions.len() && self.ecmascript_functions[i]
    }

    /// Mark this handle's slot.
    pub fn set_ecmascript_functions(&mut self, h: ECMAScriptFunction)
        requires
            h.index() < old(self).ecmascript_functions@.len(),
            !old(self).spec_marked(ecmascript_function_node(h)),
        ensures
            final(self).marked_set() == old(self).marked_set().insert(ecmascript_function_node(h)),
            final(self).total_unmarked() + 1 == old(self).total_unmarked(),
            forall|heap: Heap| old(self).fits(heap) ==> final(self).fits(heap),
    {
        let i = h.into_index();
        proof {
            lemma_count_false_update(self.ecmascript_functions@, i as int);
        }
        self.ecmascript_functions[i] = true;
        proof {
            assert(self.marked_set() =~= old(self).marked_set().insert(ecmascript_function_node(h)));
        }
    }

    /// Is this handle's slot marked?
    pub fn is_marked_errors(&self, h: Error) -> (r: bool)
        ensures
            r == self.spec_marked(error_node(h)),
    {
        let i = h.into_index();
        i < self.errors.len() && self.errors[i]
    }

    /// Mark this handle's slot.
    pub fn set_errors(&mut self, h: Error)
        requires
            h.index() < old(self).errors@.len(),
            !old(self).spec_marked(error_node(h)),
        ensures
            final(self).marked_set() == old(self).marked_set().insert(error_node(h)),
            final(self).total_unmarked() + 1 == old(self).total_unmarked(),
            forall|heap: Heap| old(self).fits(heap) ==> final(self).fits(heap),
    {
        let i = h.into_index();
        proof {
            lemma_count_false_update(self.errors@, i as int);
        }
        self.errors[i] = true;
        proof {
            assert(self.marked_set() =~= old(self).marked_set().insert(error_node(h)));
        }
    }

    /// Is this handle's slot marked?
    pub fn is_marked_executables(&self, h: Executable) -> (r: bool)
        ensures
            r == self.spec_marked(executable_node(h)),
    {
        let i = h.into_index();
        i < self.executables.len() && self.executables[i]
    }

    /// Mark this handle's slot.
    pub fn set_executables(&mut self, h: Executable)
        requires
            h.index() < old(self).executables@.len(),
            !old(self).spec_marked(executable_node(h)),
        ensures
            final(self).marked_set() == old(self).marked_set().insert(executable_node(h)),
            final(self).total_unmarked() + 1 == old(self).total_unmarked(),
            forall|heap: Heap| old(self).fits(heap) ==> final(self).fits(heap),
    {
        let i = h.into_index();
        proof {
            lemma_count_false_update(self.executables@, i as int);
        }
        self.executables[i] = true;
        proof {
            assert(self.marked_set() =~= old(self).marked_set().insert(executable_node(h)));
        }
    }

    /// Is this handle's slot marked?
    pub fn is_marked_generators(&self, h: Generator) -> (r: bool)
        ensures
            r == self.spec_marked(generator_node(h)),
    {
        let i = h.into_index();
        i < self.generators.len() && self.generators[i]
    }

    /// Mark this handle's slot.
    pub fn set_generators(&mut self, h: Generator)
        requires
            h.index() < old(self).generators@.len(),
            !old(self).spec_marked(generator_node(h)),
        ensures
            final(self).marked_set() == old(self).marked_set().insert(generator_node(h)),
            final(self).total_unmarked() + 1 == old(self).total_unmarked(),
            forall|heap: Heap| old(self).fits(heap) ==> final(self).fits(heap),
    {
        let i = h.into_index();
        proof {
            lemma_count_false_update(self.generators@, i as int);
        }
        self.generators[i] = true;
        proof {
            assert(self.marked_set() =~= old(self).marked_set().insert(generator_node(h)));
        }
    }

    /// Is this handle's slot marked?
    pub fn is_marked_numbers(&self, h: HeapNumber) -> (r: bool)
        ensures
            r == self.spec_marked(number_node(h)),
    {
        let i = h.into_index();
        i < self.numbers.len() && self.numbers[i]
    }

    /// Mark this handle's slot.
    pub fn set_numbers(&mut self, h: HeapNumber)
        requires
            h.index() < old(self).numbers@.len(),
            !old(self).spec_marked(number_node(h)),
        ensures
            final(self).marked_set() == old(self).marked_set().insert(number_node(h)),
            final(self).total_unmarked() + 1 == old(self).total_unmarked(),
            forall|heap: Heap| old(self).fits(heap) ==> final(self).fits(heap),
    {
        let i = h.into_index();
        proof {
            lemma_count_false_update(self.numbers@, i as int);
        }
        self.numbers[i] = true;
        proof {
            assert(self.marked_set() =~= old(self).marked_set().insert(number_node(h)));
        }
    }

    /// Is this handle's slot marked?
    pub fn is_marked_objects(&self, h: OrdinaryObject) -> (r: bool)
        ensures
            r == self.spec_marked(object_node(h)),
    {
        let i = h.into_index();
        i < self.objects.len() && self.objects[i]
    }

    /// Mark this handle's slot.
    pub fn set_objects(&mut self, h: OrdinaryObject)
        requires
            h.index() < old(self).objects@.len(),
            !old(self).spec_marked(object_node(h)),
        ensures
            final(self).marked_set() == old(self).marked_set().insert(object_node(h)),
            final(self).total_unmarked() + 1 == old(self).total_unmarked(),
            forall|heap: Heap| old(self).fits(heap) ==> final(self).fits(heap),
    {
        let i = h.into_index();
        proof {
            lemma_count_false_update(self.objects@, i as int);
        }
        self.objects[i] = true;
        proof {
            assert(self.marked_set() =~= old(self).marked_set().insert(object_node(h)));
        }
    }

    /// Is this handle's slot marked?
    pub fn is_marked_primitive_objects(&self, h: PrimitiveObject) -> (r: bool)
        ensures
            r == self.spec_marked(primitive_object_node(h)),
    {
        let i = h.into_index();
        i < self.primitive_objects.len() && self.primitive_objects[i]
    }

    /// Mark this handle's slot.
    pub fn set_primitive_objects(&mut self, h: PrimitiveObject)
        requires
            h.index() < old(self).primitive_objects@.len(),
            !old(self).spec_marked(primitive_object_node(h)),
        ensures
            final(self).marked_set() == old(self).marked_set().insert(primitive_object_node(h)),
            final(self).total_unmarked() + 1 == old(self).total_unmarked(),
            forall|heap: Heap| old(self).fits(heap) ==> final(self).fits(heap),
    {
        let i = h.into_index();
        proof {
            lemma_count_false_update(self.primitive_objects@, i as int);
        }
        self.primitive_objects[i] = true;
        proof {
            assert(self.marked_set() =~= old(self).marked_set().insert(primitive_object_node(h)));
        }
    }

    /// Is this handle's slot marked?
    pub fn is_marked_promises(&self, h: Promise) -> (r: bool)
        ensures
            r == self.spec_marked(promise_node(h)),
    {
        let i = h.into_index();
        i < self.promises.len() && self.promises[i]
    }

    /// Mark this handle's slot.
    pub fn set_promises(&mut self, h: Promise)
        requires
            h.index() < old(self).promises@.len(),
            !old(self).spec_marked(promise_node(h)),
        ensures
            final(self).marked_set() == old(self).marked_set().insert(promise_node(h)),
            final(self).total_unmarked() + 1 == old(self).total_unmarked(),
            forall|heap: Heap| old(self).fits(heap) ==> final(self).fits(heap),
    {
        let i = h.into_index();
        proof {
            lemma_count_false_update(self.promises@, i as int);
        }
        self.promises[i] = true;
        proof {
            assert(self.marked_set() =~= old(self).marked_set().insert(promise_node(h)));
        }
    }

    /// Is this handle's slot marked?
    pub fn is_marked_regexps(&self, h: RegExp) -> (r: bool)
        ensures
            r == self.spec_marked(regexp_node(h)),
    {
        let i = h.into_index();
        i < self.regexps.len() && self.regexps[i]
    }

    /// Mark this handle's slot.
    pub fn set_regexps(&mut self, h: RegExp)
        requires
            h.index() < old(self).regexps@.len(),
            !old(self).spec_marked(regexp_node(h)),
        ensures
            final(self).marked_set() == old(self).marked_set().insert(regexp_node(h)),
            final(self).total_unmarked() + 1 == old(self).total_unmarked(),
            forall|heap: Heap| old(self).fits(heap) ==> final(self).fits(heap),
    {
        let i = h.into_index();
        proof {
            lemma_count_false_update(self.regexps@, i as int);
        }
        self.regexps[i] = true;
        proof {
            assert(self.marked_set() =~= old(self).marked_set().insert(regexp_node(h)));
        }
    }

    /// Is this handle's slot marked?
    pub fn is_marked_sets(&self, h: SetIndex) -> (r: bool)
        ensures
            r == self.spec_marked(set_node(h)),
    {
        let i = h.into_index();
        i < self.sets.len() && self.sets[i]
    }

    /// Mark this handle's slot.
    pub fn set_sets(&mut self, h: SetIndex)
        requires
            h.index() < old(self).sets@.len(),
            !old(self).spec_marked(set_node(h)),
        ensures
            final(self).marked_set() == old(self).marked_set().insert(set_node(h)),
            final(self).total_unmarked() + 1 == old(self).total_unmarked(),
            forall|heap: Heap| old(self).fits(heap) ==> final(self).fits(heap),
    {
        let i = h.into_index();
        proof {
            lemma_count_false_update(self.sets@, i as int);
        }
        self.sets[i] = true;
        proof {
            assert(self.marked_set() =~= old(self).marked_set().insert(set_node(h)));
        }
    }

    /// Is this handle's slot marked?
    pub fn is_marked_strings(&self, h: HeapString) -> (r: bool)
        ensures
            r == self.spec_marked(string_node(h)),
    {
        let i = h.into_index();
        i < self.strings.len() && self.strings[i]
    }

    /// Mark this handle's slot.
    pub fn set_strings(&mut self, h: HeapString)
        requires
            h.index() < old(self).strings@.len(),
            !old(self).spec_marked(string_node(h)),
        ensures
            final(self).marked_set() == old(self).marked_set().insert(string_node(h)),
            final(self).total_unmarked() + 1 == old(self).total_unmarked(),
            forall|heap: Heap| old(self).fits(heap) ==> final(self).fits(heap),
    {
        let i = h.into_index();
        proof {
            lemma_count_false_update(self.strings@, i as int);
        }
        self.strings[i] = true;
        proof {
            assert(self.marked_set() =~= old(self).marked_set().insert(string_node(h)));
        }
    }

    /// Is this handle's slot marked?
    pub fn is_marked_symbols(&self, h: Symbol) -> (r: bool)
        ensures
            r == self.spec_marked(symbol_node(h)),
    {
        let i = h.into_index();
        i < self.symbols.len() && self.symbols[i]
    }

    /// Mark this handle's slot.
    pub fn set_symbols(&mut self, h: Symbol)
        requires
            h.index() < old(self).symbols@.len(),
            !old(self).spec_marked(symbol_node(h)),
        ensures
            final(self).marked_set() == old(self).marked_set().insert(symbol_node(h)),
            final(self).total_unmarked() + 1 == old(self).total_unmarked(),
            forall|heap: Heap| old(self).fits(heap) ==> final(self).fits(heap),
    {
        let i = h.into_index();
        proof {
            lemma_count_false_update(self.symbols@, i as int);
        }
        self.symbols[i] = true;
        proof {
            assert(self.marked_set() =~= old(self).marked_set().insert(symbol_node(h)));
        }
    }

}

/// The singleton (or empty) set an optional node denotes.
pub open spec fn node_set(o: Option<Node>) -> Set<Node> {
    match o {
        Some(n) => Set::<Node>::empty().insert(n),
        None => Set::<Node>::empty(),
    }
}

/// The heap node a value points at, if it points at one.
pub open spec fn value_node(v: Value) -> Option<Node> {
    match v {
        Value::Undefined => None,
        Value::Null => None,
        Value::Boolean(_) => None,
        Value::String(h) => Some(string_node(h)),
        Value::SmallString(_) => None,
        Value::Symbol(s) => Some(symbol_node(s)),
        Value::Number(h) => Some(number_node(h)),
        Value::Integer(_) => None,
        Value::SmallF64(_) => None,
        Value::BigInt(h) => Some(bigint_node(h)),
        Value::SmallBigInt(_) => None,
        Value::Object(o) => Some(object_node(o)),
        Value::BoundFunction(f) => Some(bound_function_node(f)),
        Value::BuiltinFunction(f) => Some(builtin_function_node(f)),
        Value::ECMAScriptFunction(f) => Some(ecmascript_function_node(f)),
        Value::PrimitiveObject(p) => Some(primitive_object_node(p)),
        Value::Arguments(o) => Some(object_node(o)),
        Value::Array(a) => Some(array_node(a.0)),
        Value::Date(d) => Some(date_node(d)),
        Value::Error(e) => Some(error_node(e)),
        Value::Promise(p) => Some(promise_node(p)),
        Value::RegExp(r) => Some(regexp_node(r)),
        Value::SetObject(s) => Some(set_node(s.0)),
        Value::AsyncGenerator(g) => Some(async_generator_node(g.0)),
        Value::Generator(g) => Some(generator_node(g)),
    }
}

/// The edge set one value contributes.
pub open spec fn value_nodes(v: Value) -> Set<Node> {
    node_set(value_node(v))
}

/// The edge set an optional value contributes.
pub open spec fn opt_value_nodes(o: Option<Value>) -> Set<Node> {
    match o {
        Some(v) => value_nodes(v),
        None => Set::<Node>::empty(),
    }
}

/// The heap node a runtime string points at, if heap-resident.
pub open spec fn js_string_node(s: JsString) -> Option<Node> {
    match s {
        JsString::Small(_) => None,
        JsString::Heap(h) => Some(string_node(h)),
    }
}

/// The edge set an optional runtime string contributes.
pub open spec fn opt_string_nodes(o: Option<JsString>) -> Set<Node> {
    match o {
        Some(s) => node_set(js_string_node(s)),
        None => Set::<Node>::empty(),
    }
}

/// The edge set an optional backing-object handle contributes.
pub open spec fn opt_ordinary_nodes(o: Option<OrdinaryObject>) -> Set<Node> {
    match o {
        Some(h) => Set::<Node>::empty().insert(object_node(h)),
        None => Set::<Node>::empty(),
    }
}

/// The node an object reference points at; every object kind is a handle.
pub open spec fn object_ref_node(o: Object) -> Node {
    match o {
        Object::Object(d) => object_node(d),
        Object::BoundFunction(d) => bound_function_node(d),
        Object::BuiltinFunction(d) => builtin_function_node(d),
        Object::ECMAScriptFunction(d) => ecmascript_function_node(d),
        Object::PrimitiveObject(d) => primitive_object_node(d),
        Object::Arguments(d) => object_node(d),
        Object::Array(d) => array_node(d.0),
        Object::Date(d) => date_node(d),
        Object::Error(d) => error_node(d),
        Object::Promise(d) => promise_node(d),
        Object::RegExp(d) => regexp_node(d),
        Object::SetObject(d) => set_node(d.0),
        Object::AsyncGenerator(d) => async_generator_node(d.0),
        Object::Generator(d) => generator_node(d),
    }
}

/// The edge set an optional executable handle contributes.
pub open spec fn opt_executable_nodes(o: Option<Executable>) -> Set<Node> {
    match o {
        Some(h) => Set::<Node>::empty().insert(executable_node(h)),
        None => Set::<Node>::empty(),
    }
}

/// The heap node a property key points at, if it points at one.
pub open spec fn key_node(k: PropertyKey) -> Option<Node> {
    match k {
        PropertyKey::Integer(_) => None,
        PropertyKey::SmallString(_) => None,
        PropertyKey::String(h) => Some(string_node(h)),
        PropertyKey::Symbol(s) => Some(symbol_node(s)),
    }
}

/// The edge set one property entry contributes: its key and its value.
pub open spec fn entry_nodes(e: ObjectEntry) -> Set<Node> {
    node_set(key_node(e.key)).union(value_nodes(e.value))
}

/// The edge set of a row of values.
pub open spec fn seq_value_nodes(s: Seq<Value>) -> Set<Node>
    decreases s.len(),
{
    if s.len() == 0 {
        Set::<Node>::empty()
    } else {
        seq_value_nodes(s.drop_last()).union(value_nodes(s.last()))
    }
}

/// The edge set of a row of optional values.
pub open spec fn seq_opt_value_nodes(s: Seq<Option<Value>>) -> Set<Node>
    decreases s.len(),
{
    if s.len() == 0 {
        Set::<Node>::empty()
    } else {
        seq_opt_value_nodes(s.drop_last()).union(opt_value_nodes(s.last()))
    }
}

/// The edge set of a row of property entries.
pub open spec fn seq_entry_nodes(s: Seq<ObjectEntry>) -> Set<Node>
    decreases s.len(),
{
    if s.len() == 0 {
        Set::<Node>::empty()
    } else {
        seq_entry_nodes(s.drop_last()).union(entry_nodes(s.last()))
    }
}

/// The edge set one queued request contributes: its completion payload and
/// its promise.
pub open spec fn request_nodes(r: AsyncGeneratorRequest) -> Set<Node> {
    let completion = match r.completion {
        AsyncGeneratorRequestCompletion::Normal(v) => value_nodes(v),
        AsyncGeneratorRequestCompletion::Throw(e) => value_nodes(e.spec_value()),
        AsyncGeneratorRequestCompletion::Return(v) => value_nodes(v),
    };
    completion.insert(promise_node(r.capability.promise))
}

/// The edge set of a queued row of requests.
pub open spec fn seq_request_nodes(s: Seq<AsyncGeneratorRequest>) -> Set<Node>
    decreases s.len(),
{
    if s.len() == 0 {
        Set::<Node>::empty()
    } else {
        seq_request_nodes(s.drop_last()).union(request_nodes(s.last()))
    }
}

/// The edge set of an execution-context frame.
pub open spec fn context_edges(c: ExecutionContext) -> Set<Node> {
    match c.function {
        Some(f) => Set::<Node>::empty().insert(ecmascript_function_node(f)),
        None => Set::<Node>::empty(),
    }
}

/// The edge set of a parked snapshot: its whole operand stack and every
/// local binding.
pub open spec fn vm_edges(vm: SuspendedVm) -> Set<Node> {
    seq_value_nodes(vm.stack@).union(seq_value_nodes(vm.locals@))
}

/// The edge set of the suspended half of a generator.
pub open spec fn suspended_generator_edges(s: SuspendedGeneratorState) -> Set<Node> {
    vm_edges(s.vm).union(context_edges(s.execution_context)).insert(
        executable_node(s.executable),
    )
}

/// The out-edges of an array record.
pub open spec fn array_edges(d: ArrayHeapData) -> Set<Node> {
    opt_ordinary_nodes(d.object_index).union(seq_opt_value_nodes(d.elements.values@))
}

/// The out-edges of an async-generator record.
pub open spec fn async_generator_edges(d: AsyncGeneratorHeapData) -> Set<Node> {
    let state_edges = match d.async_generator_state {
        Some(s) => match s {
            AsyncGeneratorState::SuspendedStart { vm, execution_context, queue } => vm_edges(
                vm,
            ).union(context_edges(execution_context)).union(seq_request_nodes(queue@)),
            AsyncGeneratorState::SuspendedYield { vm, execution_context, queue } => vm_edges(
                vm,
            ).union(context_edges(execution_context)).union(seq_request_nodes(queue@)),
            AsyncGeneratorState::Executing(queue) => seq_request_nodes(queue@),
            AsyncGeneratorState::ExecutingAwait { vm, execution_context, queue, .. } => vm_edges(
                vm,
            ).union(context_edges(execution_context)).union(seq_request_nodes(queue@)),
            AsyncGeneratorState::DrainingQueue(queue) => seq_request_nodes(queue@),
            AsyncGeneratorState::Completed(queue) => seq_request_nodes(queue@),
        },
        None => Set::<Node>::empty(),
    };
    opt_ordinary_nodes(d.object_index).union(opt_executable_nodes(d.executable)).union(
        state_edges,
    )
}

/// The out-edges of a bound-function record.
pub open spec fn bound_function_edges(d: BoundFunctionHeapData) -> Set<Node> {
    opt_ordinary_nodes(d.object_index).union(opt_string_nodes(d.name)).union(
        seq_value_nodes(d.bound_arguments@),
    ).union(value_nodes(d.bound_this)).insert(object_ref_node(d.bound_target_function))
}

/// The out-edges of a built-in-function record.
pub open spec fn builtin_function_edges(d: BuiltinFunctionHeapData) -> Set<Node> {
    opt_ordinary_nodes(d.object_index).union(opt_string_nodes(d.name))
}

/// The out-edges of a date record.
pub open spec fn date_edges(d: DateHeapData<i64>) -> Set<Node> {
    opt_ordinary_nodes(d.object_index)
}

/// The out-edges of a compiled-function record.
pub open spec fn ecmascript_function_edges(d: ECMAScriptFunctionHeapData) -> Set<Node> {
    opt_ordinary_nodes(d.object_index).union(opt_string_nodes(d.name)).union(
        opt_executable_nodes(d.compiled_bytecode),
    ).union(seq_value_nodes(d.ecmascript_code.constants@))
}

/// The out-edges of an error record.
pub open spec fn error_edges(d: ErrorHeapData) -> Set<Node> {
    opt_ordinary_nodes(d.object_index).union(opt_string_nodes(d.message)).union(
        opt_value_nodes(d.cause),
    )
}

/// The out-edges of an executable record: its constant pool.
pub open spec fn executable_edges(d: ExecutableHeapData) -> Set<Node> {
    seq_value_nodes(d.constants@)
}

/// The out-edges of a generator record.
pub open spec fn generator_edges(d: GeneratorHeapData) -> Set<Node> {
    let state_edges = match d.generator_state {
        Some(s) => match s {
            GeneratorState::SuspendedStart(sus) => suspended_generator_edges(sus),
            GeneratorState::SuspendedYield(sus) => suspended_generator_edges(sus),
            GeneratorState::Executing => Set::<Node>::empty(),
            GeneratorState::Completed => Set::<Node>::empty(),
        },
        None => Set::<Node>::empty(),
    };
    opt_ordinary_nodes(d.object_index).union(state_edges)
}

/// The out-edges of an ordinary-object record.
pub open spec fn object_data_edges(d: ObjectHeapData) -> Set<Node> {
    let proto = match d.prototype {
        Some(o) => Set::<Node>::empty().insert(object_ref_node(o)),
        None => Set::<Node>::empty(),
    };
    proto.union(seq_entry_nodes(d.entries@))
}

/// The out-edges of a primitive-wrapper record.
pub open spec fn primitive_object_edges(d: PrimitiveObjectHeapData) -> Set<Node> {
    let data_edges = match d.data {
        PrimitiveObjectData::Boolean(_) => Set::<Node>::empty(),
        PrimitiveObjectData::String(h) => Set::<Node>::empty().insert(string_node(h)),
        PrimitiveObjectData::SmallString(_) => Set::<Node>::empty(),
        PrimitiveObjectData::Symbol(s) => Set::<Node>::empty().insert(symbol_node(s)),
        PrimitiveObjectData::Number(h) => Set::<Node>::empty().insert(number_node(h)),
        PrimitiveObjectData::Integer(_) => Set::<Node>::empty(),
        PrimitiveObjectData::SmallF64(_) => Set::<Node>::empty(),
        PrimitiveObjectData::BigInt(h) => Set::<Node>::empty().insert(bigint_node(h)),
        PrimitiveObjectData::SmallBigInt(_) => Set::<Node>::empty(),
    };
    opt_ordinary_nodes(d.object_index).union(data_edges)
}

/// The out-edges of a promise record: its settlement value, if settled.
pub open spec fn promise_edges(d: PromiseHeapData) -> Set<Node> {
    let state_edges = match d.promise_state {
        PromiseState::Pending => Set::<Node>::empty(),
        PromiseState::Fulfilled(v) => value_nodes(v),
        PromiseState::Rejected(v) => value_nodes(v),
    };
    opt_ordinary_nodes(d.object_index).union(state_edges)
}

/// The out-edges of a regular-expression record.
pub open spec fn regexp_edges(d: RegExpHeapData) -> Set<Node> {
    opt_ordinary_nodes(d.object_index).union(node_set(js_string_node(d.original_source)))
}

/// The out-edges of a set record.
pub open spec fn set_edges(d: SetHeapData) -> Set<Node> {
    opt_ordinary_nodes(d.object_index).union(seq_value_nodes(d.elements@))
}

/// The out-edges of a symbol record.
pub open spec fn symbol_edges(d: SymbolHeapData) -> Set<Node> {
    opt_string_nodes(d.descriptor)
}

/// Is the node a live (present and occupied) slot of the heap?
pub open spec fn spec_allocated(heap: Heap, n: Node) -> bool {
    match n.kind {
        HeapKind::Array => n.idx < heap.arrays@.len() && heap.arrays@[n.idx as int] is Some,
        HeapKind::AsyncGenerator => n.idx < heap.async_generators@.len() && heap.async_generators@[n.idx as int] is Some,
        HeapKind::BigInt => n.idx < heap.bigints@.len() && heap.bigints@[n.idx as int] is Some,
        HeapKind::BoundFunction => n.idx < heap.bound_functions@.len() && heap.bound_functions@[n.idx as int] is Some,
        HeapKind::BuiltinFunction => n.idx < heap.builtin_functions@.len() && heap.builtin_functions@[n.idx as int] is Some,
        HeapKind::Date => n.idx < heap.dates@.len() && heap.dates@[n.idx as int] is Some,
        HeapKind::EcmascriptFunction => n.idx < heap.ecmascript_functions@.len() && heap.ecmascript_functions@[n.idx as int] is Some,
        HeapKind::Error => n.idx < heap.errors@.len() && heap.errors@[n.idx as int] is Some,
        HeapKind::Executable => n.idx < heap.executables@.len() && heap.executables@[n.idx as int] is Some,
        HeapKind::Generator => n.idx < heap.generators@.len() && heap.generators@[n.idx as int] is Some,
        HeapKind::Number => n.idx < heap.numbers@.len() && heap.numbers@[n.idx as int] is Some,
        HeapKind::Object => n.idx < heap.objects@.len() && heap.objects@[n.idx as int] is Some,
        HeapKind::PrimitiveObject => n.idx < heap.primitive_objects@.len() && heap.primitive_objects@[n.idx as int] is Some,
        HeapKind::Promise => n.idx < heap.promises@.len() && heap.promises@[n.idx as int] is Some,
        HeapKind::RegExp => n.idx < heap.regexps@.len() && heap.regexps@[n.idx as int] is Some,
        HeapKind::SetObject => n.idx < heap.sets@.len() && heap.sets@[n.idx as int] is Some,
        HeapKind::StringData => n.idx < heap.strings@.len() && heap.strings@[n.idx as int] is Some,
        HeapKind::Symbol => n.idx < heap.symbols@.len() && heap.symbols@[n.idx as int] is Some,
    }
}

/// The set of live nodes.
pub open spec fn spec_allocated_set(heap: Heap) -> Set<Node> {
    Set::new(|n: Node| spec_allocated(heap, n))
}

/// The out-edges of a live node; an unallocated node has none.
pub open spec fn spec_heap_edges(heap: Heap, n: Node) -> Set<Node> {
    if spec_allocated(heap, n) {
        match n.kind {
            HeapKind::Array => array_edges(heap.arrays@[n.idx as int]->Some_0),
            HeapKind::AsyncGenerator => async_generator_edges(heap.async_generators@[n.idx as int]->Some_0),
            HeapKind::BigInt => Set::<Node>::empty(),
            HeapKind::BoundFunction => bound_function_edges(heap.bound_functions@[n.idx as int]->Some_0),
            HeapKind::BuiltinFunction => builtin_function_edges(heap.builtin_functions@[n.idx as int]->Some_0),
            HeapKind::Date => date_edges(heap.dates@[n.idx as int]->Some_0),
            HeapKind::EcmascriptFunction => ecmascript_function_edges(heap.ecmascript_functions@[n.idx as int]->Some_0),
            HeapKind::Error => error_edges(heap.errors@[n.idx as int]->Some_0),
            HeapKind::Executable => executable_edges(heap.executables@[n.idx as int]->Some_0),
            HeapKind::Generator => generator_edges(heap.generators@[n.idx as int]->Some_0),
            HeapKind::Number => Set::<Node>::empty(),
            HeapKind::Object => object_data_edges(heap.objects@[n.idx as int]->Some_0),
            HeapKind::PrimitiveObject => primitive_object_edges(heap.primitive_objects@[n.idx as int]->Some_0),
            HeapKind::Promise => promise_edges(heap.promises@[n.idx as int]->Some_0),
            HeapKind::RegExp => regexp_edges(heap.regexps@[n.idx as int]->Some_0),
            HeapKind::SetObject => set_edges(heap.sets@[n.idx as int]->Some_0),
            HeapKind::StringData => Set::<Node>::empty(),
            HeapKind::Symbol => symbol_edges(heap.symbols@[n.idx as int]->Some_0),
        }
    } else {
        Set::<Node>::empty()
    }
}

/// Every live record's out-edges land on live records: no record holds a
/// dangling handle.
pub open spec fn spec_heap_wf(heap: Heap) -> bool {
    forall|n: Node, m: Node|
        spec_allocated(heap, n) && #[trigger] spec_heap_edges(heap, n).contains(m)
            ==> spec_allocated(heap, m)
}

/// The nodes reachable from `roots` in at most `k` steps.
pub open spec fn spec_reach_n(heap: Heap, roots: Set<Node>, k: nat) -> Set<Node>
    decreases k,
{
    if k == 0 {
        roots
    } else {
        let prev = spec_reach_n(heap, roots, (k - 1) as nat);
        prev.union(
            Set::new(
                |m: Node| exists|n: Node| prev.contains(n) && spec_heap_edges(heap, n).contains(m),
            ),
        )
    }
}

/// The nodes reachable from `roots`.
pub open spec fn spec_reachable(heap: Heap, roots: Set<Node>) -> Set<Node> {
    Set::new(|m: Node| exists|k: nat| spec_reach_n(heap, roots, k).contains(m))
}

/// Every root is reachable.
pub proof fn lemma_roots_reachable(heap: Heap, roots: Set<Node>)
    ensures
        roots.subset_of(spec_reachable(heap, roots)),
{
    assert forall|n: Node| roots.contains(n) implies spec_reachable(heap, roots).contains(n) by {
        assert(spec_reach_n(heap, roots, 0).contains(n));
    }
}

/// An edge out of a reachable node lands on a reachable node.
pub proof fn lemma_reachable_step(heap: Heap, roots: Set<Node>, n: Node, m: Node)
    requires
        spec_reachable(heap, roots).contains(n),
        spec_heap_edges(heap, n).contains(m),
    ensures
        spec_reachable(heap, roots).contains(m),
{
    let k = choose|k: nat| spec_reach_n(heap, roots, k).contains(n);
    assert(spec_reach_n(heap, roots, k + 1).contains(m));
}

/// Within any bound, reachability stays inside a closed superset of the
/// roots.
proof fn lemma_reach_n_in_closed(heap: Heap, roots: Set<Node>, closed: Set<Node>, k: nat)
    requires
        roots.subset_of(closed),
        forall|n: Node, m: Node|
            closed.contains(n) && #[trigger] spec_heap_edges(heap, n).contains(m)
                ==> closed.contains(m),
    ensures
        spec_reach_n(heap, roots, k).subset_of(closed),
    decreases k,
{
    if k > 0 {
        lemma_reach_n_in_closed(heap, roots, closed, (k - 1) as nat);
    }
}

/// Reachability stays inside any closed superset of the roots.
pub proof fn lemma_reachable_in_closed(heap: Heap, roots: Set<Node>, closed: Set<Node>)
    requires
        roots.subset_of(closed),
        forall|n: Node, m: Node|
            closed.contains(n) && #[trigger] spec_heap_edges(heap, n).contains(m)
                ==> closed.contains(m),
    ensures
        spec_reachable(heap, roots).subset_of(closed),
{
    assert forall|m: Node| spec_reachable(heap, roots).contains(m) implies closed.contains(m) by {
        let k = choose|k: nat| spec_reach_n(heap, roots, k).contains(m);
        lemma_reach_n_in_closed(heap, roots, closed, k);
    }
}

/// On a well-formed heap, everything reachable from live roots is live.
pub proof fn lemma_reachable_allocated(heap: Heap, roots: Set<Node>)
    requires
        spec_heap_wf(heap),
        roots.subset_of(spec_allocated_set(heap)),
    ensures
        spec_reachable(heap, roots).subset_of(spec_allocated_set(heap)),
{
    lemma_reachable_in_closed(heap, roots, spec_allocated_set(heap));
}

/// One more element extends a value row's edge set by that element's edges.
proof fn lemma_seq_value_nodes_take(s: Seq<Value>, i: int)
    requires
        0 <= i < s.len(),
    ensures
        seq_value_nodes(s.take(i + 1)) == seq_value_nodes(s.take(i)).union(value_nodes(s[i])),
{
    assert(s.take(i + 1).drop_last() =~= s.take(i));
    assert(s.take(i + 1).last() == s[i]);
}

/// One more element extends an optional-value row's edge set likewise.
proof fn lemma_seq_opt_value_nodes_take(s: Seq<Option<Value>>, i: int)
    requires
        0 <= i < s.len(),
    ensures
        seq_opt_value_nodes(s.take(i + 1)) == seq_opt_value_nodes(s.take(i)).union(
            opt_value_nodes(s[i]),
        ),
{
    assert(s.take(i + 1).drop_last() =~= s.take(i));
    assert(s.take(i + 1).last() == s[i]);
}

/// One more entry extends an entry row's edge set likewise.
proof fn lemma_seq_entry_nodes_take(s: Seq<ObjectEntry>, i: int)
    requires
        0 <= i < s.len(),
    ensures
        seq_entry_nodes(s.take(i + 1)) == seq_entry_nodes(s.take(i)).union(entry_nodes(s[i])),
{
    assert(s.take(i + 1).drop_last() =~= s.take(i));
    assert(s.take(i + 1).last() == s[i]);
}

/// One more request extends a request row's edge set likewise.
proof fn lemma_seq_request_nodes_take(s: Seq<AsyncGeneratorRequest>, i: int)
    requires
        0 <= i < s.len(),
    ensures
        seq_request_nodes(s.take(i + 1)) == seq_request_nodes(s.take(i)).union(
            request_nodes(s[i]),
        ),
{
    assert(s.take(i + 1).drop_last() =~= s.take(i));
    assert(s.take(i + 1).last() == s[i]);
}

/// Queue the heap node a value points at, if any.
pub(crate) fn trace_value(q: &mut WorkQueues, v: Value)
    ensures
        final(q).nodes() == old(q).nodes().union(value_nodes(v)),
{
    match v {
        Value::String(h) => q.push_strings(h),
        Value::Symbol(s) => q.push_symbols(s),
        Value::Number(h) => q.push_numbers(h),
        Value::BigInt(h) => q.push_bigints(h),
        Value::Object(o) => q.push_objects(o),
        Value::BoundFunction(f) => q.push_bound_functions(f),
        Value::BuiltinFunction(f) => q.push_builtin_functions(f),
        Value::ECMAScriptFunction(f) => q.push_ecmascript_functions(f),
        Value::PrimitiveObject(p) => q.push_primitive_objects(p),
        Value::Arguments(o) => q.push_objects(o),
        Value::Array(a) => q.push_arrays(a.0),
        Value::Date(d) => q.push_dates(d),
        Value::Error(e) => q.push_errors(e),
        Value::Promise(p) => q.push_promises(p),
        Value::RegExp(r) => q.push_regexps(r),
        Value::SetObject(s) => q.push_sets(s.0),
        Value::AsyncGenerator(g) => q.push_async_generators(g.0),
        Value::Generator(g) => q.push_generators(g),
        _ => (),
    }
    proof {
        assert(q.nodes() =~= old(q).nodes().union(value_nodes(v)));
    }
}

/// Queue the node an optional value points at, if any.
fn trace_opt_value(q: &mut WorkQueues, v: &Option<Value>)
    ensures
        final(q).nodes() == old(q).nodes().union(opt_value_nodes(*v)),
{
    match v {
        Some(v) => trace_value(q, *v),
        None => (),
    }
    proof {
        assert(q.nodes() =~= old(q).nodes().union(opt_value_nodes(*v)));
    }
}

/// Queue the node a runtime string points at, if heap-resident.
fn trace_js_string(q: &mut WorkQueues, s: JsString)
    ensures
        final(q).nodes() == old(q).nodes().union(node_set(js_string_node(s))),
{
    match s {
        JsString::Heap(h) => q.push_strings(h),
        JsString::Small(_) => (),
    }
    proof {
        assert(q.nodes() =~= old(q).nodes().union(node_set(js_string_node(s))));
    }
}

/// Queue the node an optional runtime string points at.
fn trace_opt_string(q: &mut WorkQueues, s: &Option<JsString>)
    ensures
        final(q).nodes() == old(q).nodes().union(opt_string_nodes(*s)),
{
    match s {
        Some(s) => trace_js_string(q, *s),
        None => (),
    }
    proof {
        assert(q.nodes() =~= old(q).nodes().union(opt_string_nodes(*s)));
    }
}

/// Queue an optional backing-object handle.
fn trace_opt_ordinary(q: &mut WorkQueues, o: &Option<OrdinaryObject>)
    ensures
        final(q).nodes() == old(q).nodes().union(opt_ordinary_nodes(*o)),
{
    match o {
        Some(h) => q.push_objects(*h),
        None => (),
    }
    proof {
        assert(q.nodes() =~= old(q).nodes().union(opt_ordinary_nodes(*o)));
    }
}

/// Queue the node an object reference points at.
fn trace_object_ref(q: &mut WorkQueues, o: Object)
    ensures
        final(q).nodes() == old(q).nodes().insert(object_ref_node(o)),
{
    match o {
        Object::Object(d) => q.push_objects(d),
        Object::BoundFunction(d) => q.push_bound_functions(d),
        Object::BuiltinFunction(d) => q.push_builtin_functions(d),
        Object::ECMAScriptFunction(d) => q.push_ecmascript_functions(d),
        Object::PrimitiveObject(d) => q.push_primitive_objects(d),
        Object::Arguments(d) => q.push_objects(d),
        Object::Array(d) => q.push_arrays(d.0),
        Object::Date(d) => q.push_dates(d),
        Object::Error(d) => q.push_errors(d),
        Object::Promise(d) => q.push_promises(d),
        Object::RegExp(d) => q.push_regexps(d),
        Object::SetObject(d) => q.push_sets(d.0),
        Object::AsyncGenerator(d) => q.push_async_generators(d.0),
        Object::Generator(d) => q.push_generators(d),
    }
}

/// Queue an optional executable handle.
fn trace_opt_executable(q: &mut WorkQueues, o: &Option<Executable>)
    ensures
        final(q).nodes() == old(q).nodes().union(opt_executable_nodes(*o)),
{
    match o {
        Some(h) => q.push_executables(*h),
        None => (),
    }
    proof {
        assert(q.nodes() =~= old(q).nodes().union(opt_executable_nodes(*o)));
    }
}

/// Queue the nodes a row of values points at.
pub(crate) fn trace_value_vec(q: &mut WorkQueues, s: &Vec<Value>)
    ensures
        final(q).nodes() == old(q).nodes().union(seq_value_nodes(s@)),
{
    let n = s.len();
    let mut i: usize = 0;
    while i < n
        invariant
            n == s@.len(),
            0 <= i <= n,
            q.nodes() == old(q).nodes().union(seq_value_nodes(s@.take(i as int))),
        decreases n - i,
    {
        proof {
            lemma_seq_value_nodes_take(s@, i as int);
        }
        trace_value(q, s[i]);
        proof {
            assert(q.nodes() =~= old(q).nodes().union(seq_value_nodes(s@.take(i + 1))));
        }
        i += 1;
    }
    proof {
        assert(s@.take(n as int) =~= s@);
    }
}

/// Queue the nodes a row of optional values points at.
fn trace_opt_value_vec(q: &mut WorkQueues, s: &Vec<Option<Value>>)
    ensures
        final(q).nodes() == old(q).nodes().union(seq_opt_value_nodes(s@)),
{
    let n = s.len();
    let mut i: usize = 0;
    while i < n
        invariant
            n == s@.len(),
            0 <= i <= n,
            q.nodes() == old(q).nodes().union(seq_opt_value_nodes(s@.take(i as int))),
        decreases n - i,
    {
        proof {
            lemma_seq_opt_value_nodes_take(s@, i as int);
        }
        trace_opt_value(q, &s[i]);
        proof {
            assert(q.nodes() =~= old(q).nodes().union(seq_opt_value_nodes(s@.take(i + 1))));
        }
        i += 1;
    }
    proof {
        assert(s@.take(n as int) =~= s@);
    }
}

/// Queue the nodes a row of property entries points at.
fn trace_entries(q: &mut WorkQueues, s: &Vec<ObjectEntry>)
    ensures
        final(q).nodes() == old(q).nodes().union(seq_entry_nodes(s@)),
{
    let n = s.len();
    let mut i: usize = 0;
    while i < n
        invariant
            n == s@.len(),
            0 <= i <= n,
            q.nodes() == old(q).nodes().union(seq_entry_nodes(s@.take(i as int))),
        decreases n - i,
    {
        proof {
            lemma_seq_entry_nodes_take(s@, i as int);
        }
        let entry = &s[i];
        match entry.key {
            PropertyKey::String(h) => q.push_strings(h),
            PropertyKey::Symbol(sym) => q.push_symbols(sym),
            _ => (),
        }
        trace_value(q, entry.value);
        proof {
            assert(q.nodes() =~= old(q).nodes().union(seq_entry_nodes(s@.take(i + 1))));
        }
        i += 1;
    }
    proof {
        assert(s@.take(n as int) =~= s@);
    }
}

/// Queue the nodes a request queue points at.
fn trace_requests(q: &mut WorkQueues, s: &VecDeque<AsyncGeneratorRequest>)
    ensures
        final(q).nodes() == old(q).nodes().union(seq_request_nodes(s@)),
{
    let n = s.len();
    let mut i: usize = 0;
    while i < n
        invariant
            n == s@.len(),
            0 <= i <= n,
            q.nodes() == old(q).nodes().union(seq_request_nodes(s@.take(i as int))),
        decreases n - i,
    {
        proof {
            lemma_seq_request_nodes_take(s@, i as int);
        }
        let request = &s[i];
        match request.completion {
            AsyncGeneratorRequestCompletion::Normal(v) => trace_value(q, v),
            AsyncGeneratorRequestCompletion::Throw(e) => trace_value(q, e.value()),
            AsyncGeneratorRequestCompletion::Return(v) => trace_value(q, v),
        }
        q.push_promises(request.capability.promise);
        proof {
            assert(q.nodes() =~= old(q).nodes().union(seq_request_nodes(s@.take(i + 1))));
        }
        i += 1;
    }
    proof {
        assert(s@.take(n as int) =~= s@);
    }
}

/// Queue the nodes a parked snapshot points at.
fn trace_vm(q: &mut WorkQueues, vm: &SuspendedVm)
    ensures
        final(q).nodes() == old(q).nodes().union(vm_edges(*vm)),
{
    trace_value_vec(q, &vm.stack);
    trace_value_vec(q, &vm.locals);
    proof {
        assert(q.nodes() =~= old(q).nodes().union(vm_edges(*vm)));
    }
}

/// Queue the node an execution-context frame points at.
pub(crate) fn trace_context(q: &mut WorkQueues, c: &ExecutionContext)
    ensures
        final(q).nodes() == old(q).nodes().union(context_edges(*c)),
{
    match c.function {
        Some(f) => q.push_ecmascript_functions(f),
        None => (),
    }
    proof {
        assert(q.nodes() =~= old(q).nodes().union(context_edges(*c)));
    }
}

/// Queue the out-edges of an array record.
fn trace_array(q: &mut WorkQueues, d: &ArrayHeapData)
    ensures
        final(q).nodes() == old(q).nodes().union(array_edges(*d)),
{
    trace_opt_ordinary(q, &d.object_index);
    trace_opt_value_vec(q, &d.elements.values);
    proof {
        assert(q.nodes() =~= old(q).nodes().union(array_edges(*d)));
    }
}

/// Queue the out-edges of an async-generator record.
pub(crate) fn trace_async_generator(q: &mut WorkQueues, d: &AsyncGeneratorHeapData)
    ensures
        final(q).nodes() == old(q).nodes().union(async_generator_edges(*d)),
{
    trace_opt_ordinary(q, &d.object_index);
    trace_opt_executable(q, &d.executable);
    match &d.async_generator_state {
        Some(s) => match s {
            AsyncGeneratorState::SuspendedStart { vm, execution_context, queue } => {
                trace_vm(q, vm);
                trace_context(q, execution_context);
                trace_requests(q, queue);
            },
            AsyncGeneratorState::SuspendedYield { vm, execution_context, queue } => {
                trace_vm(q, vm);
                trace_context(q, execution_context);
                trace_requests(q, queue);
            },
            AsyncGeneratorState::Executing(queue) => {
                trace_requests(q, queue);
            },
            AsyncGeneratorState::ExecutingAwait { vm, execution_context, queue, .. } => {
                trace_vm(q, vm);
                trace_context(q, execution_context);
                trace_requests(q, queue);
            },
            AsyncGeneratorState::DrainingQueue(queue) => {
                trace_requests(q, queue);
            },
            AsyncGeneratorState::Completed(queue) => {
                trace_requests(q, queue);
            },
        },
        None => (),
    }
    proof {
        assert(q.nodes() =~= old(q).nodes().union(async_generator_edges(*d)));
    }
}

/// Queue the out-edges of a bound-function record.
fn trace_bound_function(q: &mut WorkQueues, d: &BoundFunctionHeapData)
    ensures
        final(q).nodes() == old(q).nodes().union(bound_function_edges(*d)),
{
    trace_opt_ordinary(q, &d.object_index);
    trace_opt_string(q, &d.name);
    trace_value_vec(q, &d.bound_arguments);
    trace_value(q, d.bound_this);
    trace_object_ref(q, d.bound_target_function);
    proof {
        assert(q.nodes() =~= old(q).nodes().union(bound_function_edges(*d)));
    }
}

/// Queue the out-edges of a built-in-function record.
fn trace_builtin_function(q: &mut WorkQueues, d: &BuiltinFunctionHeapData)
    ensures
        final(q).nodes() == old(q).nodes().union(builtin_function_edges(*d)),
{
    trace_opt_ordinary(q, &d.object_index);
    trace_opt_string(q, &d.name);
    proof {
        assert(q.nodes() =~= old(q).nodes().union(builtin_function_edges(*d)));
    }
}

/// Queue the out-edges of a date record.
fn trace_date(q: &mut WorkQueues, d: &DateHeapData<i64>)
    ensures
        final(q).nodes() == old(q).nodes().union(date_edges(*d)),
{
    trace_opt_ordinary(q, &d.object_index);
    proof {
        assert(q.nodes() =~= old(q).nodes().union(date_edges(*d)));
    }
}

/// Queue the out-edges of a compiled-function record.
fn trace_ecmascript_function(q: &mut WorkQueues, d: &ECMAScriptFunctionHeapData)
    ensures
        final(q).nodes() == old(q).nodes().union(ecmascript_function_edges(*d)),
{
    trace_opt_ordinary(q, &d.object_index);
    trace_opt_string(q, &d.name);
    trace_opt_executable(q, &d.compiled_bytecode);
    trace_value_vec(q, &d.ecmascript_code.constants);
    proof {
        assert(q.nodes() =~= old(q).nodes().union(ecmascript_function_edges(*d)));
    }
}

/// Queue the out-edges of an error record.
fn trace_error(q: &mut WorkQueues, d: &ErrorHeapData)
    ensures
        final(q).nodes() == old(q).nodes().union(error_edges(*d)),
{
    trace_opt_ordinary(q, &d.object_index);
    trace_opt_string(q, &d.message);
    trace_opt_value(q, &d.cause);
    proof {
        assert(q.nodes() =~= old(q).nodes().union(error_edges(*d)));
    }
}

/// Queue the out-edges of an executable record.
fn trace_executable(q: &mut WorkQueues, d: &ExecutableHeapData)
    ensures
        final(q).nodes() == old(q).nodes().union(executable_edges(*d)),
{
    trace_value_vec(q, &d.constants);
    proof {
        assert(q.nodes() =~= old(q).nodes().union(executable_edges(*d)));
    }
}

/// Queue the out-edges of a generator record.
fn trace_generator(q: &mut WorkQueues, d: &GeneratorHeapData)
    ensures
        final(q).nodes() == old(q).nodes().union(generator_edges(*d)),
{
    trace_opt_ordinary(q, &d.object_index);
    match &d.generator_state {
        Some(s) => match s {
            GeneratorState::SuspendedStart(sus) => {
                trace_vm(q, &sus.vm);
                trace_context(q, &sus.execution_context);
                q.push_executables(sus.executable);
            },
            GeneratorState::SuspendedYield(sus) => {
                trace_vm(q, &sus.vm);
                trace_context(q, &sus.execution_context);
                q.push_executables(sus.executable);
            },
            GeneratorState::Executing => (),
            GeneratorState::Completed => (),
        },
        None => (),
    }
    proof {
        assert(q.nodes() =~= old(q).nodes().union(generator_edges(*d)));
    }
}

/// Queue the out-edges of an ordinary-object record.
fn trace_object_data(q: &mut WorkQueues, d: &ObjectHeapData)
    ensures
        final(q).nodes() == old(q).nodes().union(object_data_edges(*d)),
{
    match d.prototype {
        Some(o) => trace_object_ref(q, o),
        None => (),
    }
    trace_entries(q, &d.entries);
    proof {
        assert(q.nodes() =~= old(q).nodes().union(object_data_edges(*d)));
    }
}

/// Queue the out-edges of a primitive-wrapper record.
fn trace_primitive_object(q: &mut WorkQueues, d: &PrimitiveObjectHeapData)
    ensures
        final(q).nodes() == old(q).nodes().union(primitive_object_edges(*d)),
{
    trace_opt_ordinary(q, &d.object_index);
    match d.data {
        PrimitiveObjectData::String(h) => q.push_strings(h),
        PrimitiveObjectData::Symbol(s) => q.push_symbols(s),
        PrimitiveObjectData::Number(h) => q.push_numbers(h),
        PrimitiveObjectData::BigInt(h) => q.push_bigints(h),
        _ => (),
    }
    proof {
        assert(q.nodes() =~= old(q).nodes().union(primitive_object_edges(*d)));
    }
}

/// Queue the out-edges of a promise record.
fn trace_promise(q: &mut WorkQueues, d: &PromiseHeapData)
    ensures
        final(q).nodes() == old(q).nodes().union(promise_edges(*d)),
{
    trace_opt_ordinary(q, &d.object_index);
    match d.promise_state {
        PromiseState::Fulfilled(v) => trace_value(q, v),
        PromiseState::Rejected(v) => trace_value(q, v),
        PromiseState::Pending => (),
    }
    proof {
        assert(q.nodes() =~= old(q).nodes().union(promise_edges(*d)));
    }
}

/// Queue the out-edges of a regular-expression record.
fn trace_regexp(q: &mut WorkQueues, d: &RegExpHeapData)
    ensures
        final(q).nodes() == old(q).nodes().union(regexp_edges(*d)),
{
    trace_opt_ordinary(q, &d.object_index);
    trace_js_string(q, d.original_source);
    proof {
        assert(q.nodes() =~= old(q).nodes().union(regexp_edges(*d)));
    }
}

/// Queue the out-edges of a set record.
fn trace_set(q: &mut WorkQueues, d: &SetHeapData)
    ensures
        final(q).nodes() == old(q).nodes().union(set_edges(*d)),
{
    trace_opt_ordinary(q, &d.object_index);
    trace_value_vec(q, &d.elements);
    proof {
        assert(q.nodes() =~= old(q).nodes().union(set_edges(*d)));
    }
}

/// Queue the out-edges of a symbol record.
fn trace_symbol(q: &mut WorkQueues, d: &SymbolHeapData)
    ensures
        final(q).nodes() == old(q).nodes().union(symbol_edges(*d)),
{
    trace_opt_string(q, &d.descriptor);
    proof {
        assert(q.nodes() =~= old(q).nodes().union(symbol_edges(*d)));
    }
}

/// The unmarked count is never negative.
proof fn lemma_total_unmarked_nonneg(m: Marks)
    ensures
        m.total_unmarked() >= 0,
{
    lemma_count_false_nonneg(m.arrays@);
    lemma_count_false_nonneg(m.async_generators@);
    lemma_count_false_nonneg(m.bigints@);
    lemma_count_false_nonneg(m.bound_functions@);
    lemma_count_false_nonneg(m.builtin_functions@);
    lemma_count_false_nonneg(m.dates@);
    lemma_count_false_nonneg(m.ecmascript_functions@);
    lemma_count_false_nonneg(m.errors@);
    lemma_count_false_nonneg(m.executables@);
    lemma_count_false_nonneg(m.generators@);
    lemma_count_false_nonneg(m.numbers@);
    lemma_count_false_nonneg(m.objects@);
    lemma_count_false_nonneg(m.primitive_objects@);
    lemma_count_false_nonneg(m.promises@);
    lemma_count_false_nonneg(m.regexps@);
    lemma_count_false_nonneg(m.sets@);
    lemma_count_false_nonneg(m.strings@);
    lemma_count_false_nonneg(m.symbols@);
}

/// The mark phase: drain the work queues, marking each reached record once
/// and queueing its out-edges when it is first marked.
///
/// On a well-formed heap the marked set is exactly the set of records
/// reachable from the initially queued roots.
#[verifier::loop_isolation(false)]
pub fn mark(heap: &Heap, queues: WorkQueues) -> (marks: Marks)
    requires
        spec_heap_wf(*heap),
        queues.nodes().subset_of(spec_allocated_set(*heap)),
    ensures
        marks.fits(*heap),
        marks.marked_set() == spec_reachable(*heap, queues.nodes()),
{
    let ghost roots = queues.nodes();
    let mut marks = Marks::new(heap);
    let mut q = queues;
    proof {
        lemma_roots_reachable(*heap, roots);
    }
    loop
        invariant
            spec_heap_wf(*heap),
            marks.fits(*heap),
            marks.marked_set().subset_of(spec_reachable(*heap, roots)),
            marks.marked_set().subset_of(spec_allocated_set(*heap)),
            q.nodes().subset_of(spec_reachable(*heap, roots)),
            q.nodes().subset_of(spec_allocated_set(*heap)),
            roots.subset_of(marks.marked_set().union(q.nodes())),
            forall|n: Node, m: Node|
                marks.marked_set().contains(n) && #[trigger] spec_heap_edges(*heap, n).contains(m)
                    ==> marks.marked_set().union(q.nodes()).contains(m),
        decreases marks.total_unmarked(), q.total_len(),
    {
        let ghost pre_marks = marks.marked_set();
        let ghost pre_q = q.nodes();
        proof {
            lemma_total_unmarked_nonneg(marks);
        }
        match q.pop_any() {
            None => {
                proof {
                    assert(roots.subset_of(marks.marked_set()));
                    assert forall|n: Node, m: Node|
                        marks.marked_set().contains(n) && #[trigger] spec_heap_edges(
                            *heap,
                            n,
                        ).contains(m) implies marks.marked_set().contains(m) by {
                        assert(pre_q.contains(m) || marks.marked_set().contains(m));
                    }
                    lemma_reachable_in_closed(*heap, roots, marks.marked_set());
                    assert(marks.marked_set() =~= spec_reachable(*heap, roots));
                }
                return marks;
            },
            Some(p) => {
                let ghost u = popped_node(p);
                match p {
                Popped::Array(h) => {
                    if !marks.is_marked_arrays(h) {
                        proof {
                            assert(spec_allocated(*heap, array_node(h)));
                        }
                        marks.set_arrays(h);
                        let record = heap.arrays.get(h);
                        trace_array(&mut q, record);
                        proof {
                            assert(spec_heap_edges(*heap, array_node(h)) == array_edges(*record));
                        }
                    }
                },
                Popped::AsyncGenerator(h) => {
                    if !marks.is_marked_async_generators(h) {
                        proof {
                            assert(spec_allocated(*heap, async_generator_node(h)));
                        }
                        marks.set_async_generators(h);
                        let record = heap.async_generators.get(h);
                        trace_async_generator(&mut q, record);
                        proof {
                            assert(spec_heap_edges(*heap, async_generator_node(h)) == async_generator_edges(*record));
                        }
                    }
                },
                Popped::BigInt(h) => {
                    if !marks.is_marked_bigints(h) {
                        proof {
                            assert(spec_allocated(*heap, bigint_node(h)));
                        }
                        marks.set_bigints(h);
                        proof {
                            assert(spec_heap_edges(*heap, bigint_node(h)) =~= Set::<Node>::empty());
                        }
                    }
                },
                Popped::BoundFunction(h) => {
                    if !marks.is_marked_bound_functions(h) {
                        proof {
                            assert(spec_allocated(*heap, bound_function_node(h)));
                        }
                        marks.set_bound_functions(h);
                        let record = heap.bound_functions.get(h);
                        trace_bound_function(&mut q, record);
                        proof {
                            assert(spec_heap_edges(*heap, bound_function_node(h)) == bound_function_edges(*record));
                        }
                    }
                },
                Popped::BuiltinFunction(h) => {
                    if !marks.is_marked_builtin_functions(h) {
                        proof {
                            assert(spec_allocated(*heap, builtin_function_node(h)));
                        }
                        marks.set_builtin_functions(h);
                        let record = heap.builtin_functions.get(h);
                        trace_builtin_function(&mut q, record);
                        proof {
                            assert(spec_heap_edges(*heap, builtin_function_node(h)) == builtin_function_edges(*record));
                        }
                    }
                },
                Popped::Date(h) => {
                    if !marks.is_marked_dates(h) {
                        proof {
                            assert(spec_allocated(*heap, date_node(h)));
                        }
                        marks.set_dates(h);
                        let record = heap.dates.get(h);
                        trace_date(&mut q, record);
                        proof {
                            assert(spec_heap_edges(*heap, date_node(h)) == date_edges(*record));
                        }
                    }
                },
                Popped::EcmascriptFunction(h) => {
                    if !marks.is_marked_ecmascript_functions(h) {
                        proof {
                            assert(spec_allocated(*heap, ecmascript_function_node(h)));
                        }
                        marks.set_ecmascript_functions(h);
                        let record = heap.ecmascript_functions.get(h);
                        trace_ecmascript_function(&mut q, record);
                        proof {
                            assert(spec_heap_edges(*heap, ecmascript_function_node(h)) == ecmascript_function_edges(*record));
                        }
                    }
                },
                Popped::Error(h) => {
                    if !marks.is_marked_errors(h) {
                        proof {
                            assert(spec_allocated(*heap, error_node(h)));
                        }
                        marks.set_errors(h);
                        let record = heap.errors.get(h);
                        trace_error(&mut q, record);
                        proof {
                            assert(spec_heap_edges(*heap, error_node(h)) == error_edges(*record));
                        }
                    }
                },
                Popped::Executable(h) => {
                    if !marks.is_marked_executables(h) {
                        proof {
                            assert(spec_allocated(*heap, executable_node(h)));
                        }
                        marks.set_executables(h);
                        let record = heap.executables.get(h);
                        trace_executable(&mut q, record);
                        proof {
                            assert(spec_heap_edges(*heap, executable_node(h)) == executable_edges(*record));
                        }
                    }
                },
                Popped::Generator(h) => {
                    if !marks.is_marked_generators(h) {
                        proof {
                            assert(spec_allocated(*heap, generator_node(h)));
                        }
                        marks.set_generators(h);
                        let record = heap.generators.get(h);
                        trace_generator(&mut q, record);
                        proof {
                            assert(spec_heap_edges(*heap, generator_node(h)) == generator_edges(*record));
                        }
                    }
                },
                Popped::Number(h) => {
                    if !marks.is_marked_numbers(h) {
                        proof {
                            assert(spec_allocated(*heap, number_node(h)));
                        }
                        marks.set_numbers(h);
                        proof {
                            assert(spec_heap_edges(*heap, number_node(h)) =~= Set::<Node>::empty());
                        }
                    }
                },
                Popped::Object(h) => {
                    if !marks.is_marked_objects(h) {
                        proof {
                            assert(spec_allocated(*heap, object_node(h)));
                        }
                        marks.set_objects(h);
                        let record = heap.objects.get(h);
                        trace_object_data(&mut q, record);
                        proof {
                            assert(spec_heap_edges(*heap, object_node(h)) == object_data_edges(*record));
                        }
                    }
                },
                Popped::PrimitiveObject(h) => {
                    if !marks.is_marked_primitive_objects(h) {
                        proof {
                            assert(spec_allocated(*heap, primitive_object_node(h)));
                        }
                        marks.set_primitive_objects(h);
                        let record = heap.primitive_objects.get(h);
                        trace_primitive_object(&mut q, record);
                        proof {
                            assert(spec_heap_edges(*heap, primitive_object_node(h)) == primitive_object_edges(*record));
                        }
                    }
                },
                Popped::Promise(h) => {
                    if !marks.is_marked_promises(h) {
                        proof {
                            assert(spec_allocated(*heap, promise_node(h)));
                        }
                        marks.set_promises(h);
                        let record = heap.promises.get(h);
                        trace_promise(&mut q, record);
                        proof {
                            assert(spec_heap_edges(*heap, promise_node(h)) == promise_edges(*record));
                        }
                    }
                },
                Popped::RegExp(h) => {
                    if !marks.is_marked_regexps(h) {
                        proof {
                            assert(spec_allocated(*heap, regexp_node(h)));
                        }
                        marks.set_regexps(h);
                        let record = heap.regexps.get(h);
                        trace_regexp(&mut q, record);
                        proof {
                            assert(spec_heap_edges(*heap, regexp_node(h)) == regexp_edges(*record));
                        }
                    }
                },
                Popped::SetObject(h) => {
                    if !marks.is_marked_sets(h) {
                        proof {
                            assert(spec_allocated(*heap, set_node(h)));
                        }
                        marks.set_sets(h);
                        let record = heap.sets.get(h);
                        trace_set(&mut q, record);
                        proof {
                            assert(spec_heap_edges(*heap, set_node(h)) == set_edges(*record));
                        }
                    }
                },
                Popped::StringData(h) => {
                    if !marks.is_marked_strings(h) {
                        proof {
                            assert(spec_allocated(*heap, string_node(h)));
                        }
                        marks.set_strings(h);
                        proof {
                            assert(spec_heap_edges(*heap, string_node(h)) =~= Set::<Node>::empty());
                        }
                    }
                },
                Popped::Symbol(h) => {
                    if !marks.is_marked_symbols(h) {
                        proof {
                            assert(spec_allocated(*heap, symbol_node(h)));
                        }
                        marks.set_symbols(h);
                        let record = heap.symbols.get(h);
                        trace_symbol(&mut q, record);
                        proof {
                            assert(spec_heap_edges(*heap, symbol_node(h)) == symbol_edges(*record));
                        }
                    }
                },
                }
                proof {
                    lemma_total_unmarked_nonneg(marks);
                    assert(marks.marked_set().union(q.nodes()).contains(u));
                    if !pre_marks.contains(u) {
                        assert forall|m: Node| spec_heap_edges(*heap, u).contains(m)
                            implies spec_reachable(*heap, roots).contains(m) by {
                            lemma_reachable_step(*heap, roots, u, m);
                        }
                    }
                }
            },
        }
    }
}

/// The root nodes an execution-context stack contributes.
pub open spec fn contexts_nodes(s: Seq<ExecutionContext>) -> Set<Node>
    decreases s.len(),
{
    if s.len() == 0 {
        Set::<Node>::empty()
    } else {
        contexts_nodes(s.drop_last()).union(context_edges(s.last()))
    }
}

/// Every frame's edges lie inside the stack's root set.
pub proof fn lemma_contexts_nodes_all(s: Seq<ExecutionContext>)
    ensures
        forall|j: int, m: Node|
            0 <= j < s.len() && context_edges(s[j]).contains(m) ==> contexts_nodes(s).contains(m),
    decreases s.len(),
{
    if s.len() > 0 {
        lemma_contexts_nodes_all(s.drop_last());
        assert forall|j: int, m: Node|
            0 <= j < s.len() && context_edges(s[j]).contains(m) implies contexts_nodes(
            s,
        ).contains(m) by {
            if j < s.len() - 1 {
                assert(s.drop_last()[j] == s[j]);
                assert(contexts_nodes(s.drop_last()).contains(m));
            } else {
                assert(s[j] == s.last());
            }
        }
    }
}

/// No strong handle can dangle after a pass: every handle embedded in a
/// record that survives (a reachable record) points at a record that is
/// itself reachable, and therefore also survives. An unreachable target
/// behind a strong handle of a surviving record is impossible, not a case
/// the sweep tolerates.
pub proof fn lemma_no_strong_dangling(heap: Heap, roots: Set<Node>, n: Node, m: Node)
    requires
        spec_reachable(heap, roots).contains(n),
        spec_heap_edges(heap, n).contains(m),
    ensures
        spec_reachable(heap, roots).contains(m),
{
    lemma_reachable_step(heap, roots, n, m);
}

/// Running the mark phase twice without an intervening mutation produces an
/// identical marked set: the marked set is a function of the heap and the
/// root set alone.
pub proof fn lemma_mark_idempotent(heap: Heap, roots: Set<Node>, first: Marks, second: Marks)
    requires
        first.marked_set() == spec_reachable(heap, roots),
        second.marked_set() == spec_reachable(heap, roots),
    ensures
        first.marked_set() == second.marked_set(),
{
}

/// One more frame extends the stack's root set by that frame's edges.
proof fn lemma_contexts_nodes_take(s: Seq<ExecutionContext>, i: int)
    requires
        0 <= i < s.len(),
    ensures
        contexts_nodes(s.take(i + 1)) == contexts_nodes(s.take(i)).union(context_edges(s[i])),
{
    assert(s.take(i + 1).drop_last() =~= s.take(i));
    assert(s.take(i + 1).last() == s[i]);
}

/// The root nodes the realm's intrinsic objects contribute.
pub open spec fn intrinsics_nodes(i: crate::agent::Intrinsics) -> Set<Node> {
    Set::<Node>::empty().insert(object_node(i.object_prototype)).insert(
        object_node(i.function_prototype),
    ).insert(object_node(i.array_prototype)).insert(object_node(i.symbol_prototype)).insert(
        object_node(i.bigint_prototype),
    ).insert(object_node(i.set_prototype)).insert(object_node(i.generator_prototype)).insert(
        object_node(i.async_generator_prototype),
    ).insert(object_node(i.promise_prototype))
}

/// The declared root set of the runtime: externally held strong roots, the
/// execution-context stack, and the realm's intrinsic objects. Weak slots are
/// not roots.
pub open spec fn agent_roots(a: Agent) -> Set<Node> {
    seq_value_nodes(a.globals@).union(contexts_nodes(a.execution_context_stack@)).union(
        intrinsics_nodes(a.realm.intrinsics),
    )
}

/// Queue every root of the runtime.
pub fn build_root_queues(agent: &Agent) -> (q: WorkQueues)
    ensures
        q.nodes() == agent_roots(*agent),
{
    let mut q = WorkQueues::new();
    trace_value_vec(&mut q, &agent.globals);
    let n = agent.execution_context_stack.len();
    let mut i: usize = 0;
    let ghost after_globals = q.nodes();
    while i < n
        invariant
            n == agent.execution_context_stack@.len(),
            0 <= i <= n,
            q.nodes() == after_globals.union(
                contexts_nodes(agent.execution_context_stack@.take(i as int)),
            ),
        decreases n - i,
    {
        proof {
            lemma_contexts_nodes_take(agent.execution_context_stack@, i as int);
        }
        trace_context(&mut q, &agent.execution_context_stack[i]);
        proof {
            assert(q.nodes() =~= after_globals.union(
                contexts_nodes(agent.execution_context_stack@.take(i + 1)),
            ));
        }
        i += 1;
    }
    proof {
        assert(agent.execution_context_stack@.take(n as int)
            =~= agent.execution_context_stack@);
    }
    let intrinsics = agent.realm.intrinsics;
    q.push_objects(intrinsics.object_prototype);
    q.push_objects(intrinsics.function_prototype);
    q.push_objects(intrinsics.array_prototype);
    q.push_objects(intrinsics.symbol_prototype);
    q.push_objects(intrinsics.bigint_prototype);
    q.push_objects(intrinsics.set_prototype);
    q.push_objects(intrinsics.generator_prototype);
    q.push_objects(intrinsics.async_generator_prototype);
    q.push_objects(intrinsics.promise_prototype);
    proof {
        assert(q.nodes() =~= agent_roots(*agent));
    }
    q
}

impl Value {
    /// Enqueue the record this value points at, if it points at one.
    pub fn mark_values(self, queues: &mut WorkQueues)
        ensures
            final(queues).nodes() == old(queues).nodes().union(value_nodes(self)),
    {
        trace_value(queues, self);
    }
}

impl crate::set_object::SetObject {
    /// Enqueue this set's own record; its contents are traced when the
    /// record is first marked.
    pub fn mark_values(self, queues: &mut WorkQueues)
        ensures
            final(queues).nodes() == old(queues).nodes().insert(set_node(self.0)),
    {
        queues.push_sets(self.0);
    }
}

impl AsyncGeneratorHeapData {
    /// Enqueue every record this generator's state reaches: its backing
    /// object, its cached executable, the parked snapshot, and the whole
    /// request queue.
    pub fn mark_values(&self, queues: &mut WorkQueues)
        ensures
            final(queues).nodes() == old(queues).nodes().union(async_generator_edges(*self)),
    {
        trace_async_generator(queues, self);
    }
}

} // verus!
