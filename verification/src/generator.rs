//! Generator objects: a finite state machine owning a suspended execution
//! snapshot.
//!
//! Only `SuspendedStart` and `SuspendedYield` may move to `Executing`;
//! `Executing` moves to `SuspendedYield` on a yield and to `Completed` on
//! return, throw, or exhaustion. Re-entering an executing generator is a
//! `TypeError`-class failure, not a state.

use vstd::prelude::*;

verus! {

use crate::agent::{Agent, ExecutionContext};
use crate::heap::Heap;
use crate::object::{
    Object, ObjectEntry, ObjectHeapData, OrdinaryObject, PropertyKey, PropertyKeyId,
    spec_entry_lookup,
};
use crate::small_string::SmallString;
use crate::value::Value;
use crate::indexes::BaseIndex;
use crate::vm::{Executable, SuspendedVm};

/// The suspended half of a generator: the parked snapshot, the compiled body
/// it belongs to, and the execution context to reinstate on resumption.
#[derive(Debug, Clone)]
pub struct SuspendedGeneratorState {
    pub vm: SuspendedVm,
    pub executable: Executable,
    pub execution_context: ExecutionContext,
}

/// The generator state machine. Each transition takes exclusive ownership of
/// the suspended snapshot: no two states exist for one generator at once.
#[derive(Debug, Clone)]
pub enum GeneratorState {
    /// Holds the initial snapshot; the body has not run yet.
    SuspendedStart(SuspendedGeneratorState),
    /// Parked after a yield.
    SuspendedYield(SuspendedGeneratorState),
    /// The snapshot is checked out and running.
    Executing,
    /// Terminal.
    Completed,
}

impl GeneratorState {
    /// May this state move to `Executing`?
    pub open spec fn spec_is_resumable(self) -> bool {
        self matches GeneratorState::SuspendedStart(_) || self matches GeneratorState::SuspendedYield(
            _,
        )
    }
}

/// A heap-resident generator record.
#[derive(Debug, Clone)]
pub struct GeneratorHeapData {
    /// Backing ordinary object, created lazily.
    pub object_index: Option<OrdinaryObject>,
    /// `None` only transiently, while a transition holds the state.
    pub generator_state: Option<GeneratorState>,
}

/// Tag of the generator heap kind.
#[derive(Debug, Clone, Copy, Hash)]
pub struct GeneratorTag;

/// Handle into the generator arena.
pub type Generator = BaseIndex<GeneratorTag>;

/// Allocate an iterator result object: `{ value, done }` with the realm's
/// object prototype.
pub fn create_iter_result_object(agent: &mut Agent, value: Value, done: bool) -> (r:
    OrdinaryObject)
    requires
        old(agent).heap.objects@.len() < u32::MAX,
    ensures
        final(agent).heap.objects@.len() == old(agent).heap.objects@.len() + 1,
        r.index() == old(agent).heap.objects@.len(),
        forall|j: int|
            0 <= j < old(agent).heap.objects@.len() ==> #[trigger] final(agent).heap.objects@[j]
                == old(agent).heap.objects@[j],
        final(agent).heap.objects.valid(r),
        iter_result_ok(final(agent).heap.objects.spec_get(r), value, done),
        final(agent).heap == (Heap { objects: final(agent).heap.objects, ..old(agent).heap }),
        final(agent).execution_context_stack == old(agent).execution_context_stack,
        final(agent).globals == old(agent).globals,
        final(agent).weak_refs == old(agent).weak_refs,
        final(agent).realm == old(agent).realm,
{
    let proto = agent.realm.intrinsics.object_prototype;
    let mut data = ObjectHeapData::new_with_prototype(Some(Object::Object(proto)));
    let value_key = PropertyKey::SmallString(SmallString::from_bytes(value_key_bytes().as_slice()));
    let done_key = PropertyKey::SmallString(SmallString::from_bytes(done_key_bytes().as_slice()));
    data.set_entry(ObjectEntry::new(value_key, value));
    data.set_entry(ObjectEntry::new(done_key, Value::Boolean(done)));
    proof {
        reveal_strlit("value");
        reveal_strlit("done");
    }
    agent.heap.objects.create(data)
}

/// The UTF-8 bytes of the `value` key.
fn value_key_bytes() -> (r: Vec<u8>)
    ensures
        r@ == "value"@.map_values(|c: char| c as u8),
        r@.len() == 5,
        forall|i: int| 0 <= i < r@.len() ==> r@[i] != 0xFF,
{
    let r = crate::agent::str_to_bytes("value");
    proof {
        reveal_strlit("value");
        assert(vstd::utf8::is_ascii_chars("value"@));
        vstd::utf8::is_ascii_chars_encode_utf8("value"@);
        assert(r@ =~= "value"@.map_values(|c: char| c as u8));
        assert forall|i: int| 0 <= i < r@.len() implies r@[i] != 0xFF by {
            assert(r@[i] == "value"@[i] as u8);
        }
    }
    r
}

/// The UTF-8 bytes of the `done` key.
fn done_key_bytes() -> (r: Vec<u8>)
    ensures
        r@ == "done"@.map_values(|c: char| c as u8),
        r@.len() == 4,
        forall|i: int| 0 <= i < r@.len() ==> r@[i] != 0xFF,
{
    let r = crate::agent::str_to_bytes("done");
    proof {
        reveal_strlit("done");
        assert(vstd::utf8::is_ascii_chars("done"@));
        vstd::utf8::is_ascii_chars_encode_utf8("done"@);
        assert(r@ =~= "done"@.map_values(|c: char| c as u8));
        assert forall|i: int| 0 <= i < r@.len() implies r@[i] != 0xFF by {
            assert(r@[i] == "done"@[i] as u8);
        }
    }
    r
}

/// Does the object read as the iterator result `{ value, done }`?
pub open spec fn iter_result_ok(d: ObjectHeapData, value: Value, done: bool) -> bool {
    &&& spec_entry_lookup(d.entries@, PropertyKeyId::SmallStr("value"@.map_values(|c: char| c as u8)))
        matches Some(e) && e.value == value
    &&& spec_entry_lookup(d.entries@, PropertyKeyId::SmallStr("done"@.map_values(|c: char| c as u8)))
        matches Some(e) && e.value == Value::Boolean(done)
}

/// What a resumption left behind: how the machine outcome maps to the new
/// state, the returned iterator result, and the settled heap.
pub open spec fn generator_resume_post(
    exe: crate::vm::ExecutableHeapData,
    start: crate::vm::MachineState,
    executable: crate::vm::Executable,
    new_state: Option<GeneratorState>,
    objects: crate::arena::Arena<crate::object::ObjectTag, ObjectHeapData>,
    r: Result<Value, crate::error::JsError>,
) -> bool {
    exists|n: nat|
        match #[trigger] crate::vm::spec_run(exe, start, n) {
            crate::vm::SpecStep::Done(outcome) => match outcome {
                crate::vm::SpecOutcome::Yield(vm_state, v) => {
                    &&& (r matches Ok(val) && val matches Value::Object(o) && objects.valid(o)
                        && iter_result_ok(objects.spec_get(o), v, false))
                    &&& (new_state matches Some(GeneratorState::SuspendedYield(s2))
                        && s2.vm.state() == vm_state && s2.executable == executable)
                },
                crate::vm::SpecOutcome::Return(v) => {
                    &&& (r matches Ok(val) && val matches Value::Object(o) && objects.valid(o)
                        && iter_result_ok(objects.spec_get(o), v, true))
                    &&& new_state matches Some(GeneratorState::Completed)
                },
                crate::vm::SpecOutcome::Throw(v) => {
                    &&& (r matches Err(e) && e.spec_value() == v)
                    &&& new_state matches Some(GeneratorState::Completed)
                },
                crate::vm::SpecOutcome::Await(_, _) => {
                    &&& r is Err
                    &&& new_state matches Some(GeneratorState::Completed)
                },
            },
            crate::vm::SpecStep::More(_) => false,
        }
}

/// Advance a generator: `next(value)`.
///
/// On a generator that has not started, this runs the body to its first
/// yield; on one parked after a yield, it resumes there with `value`
/// injected. The result is an iterator result object: `{ value, done:false }`
/// at a yield, `{ value, done:true }` on completion. Re-entering a running
/// generator is a `TypeError`; a completed generator answers
/// `{ undefined, done:true }` without touching the body.
pub fn generator_next(agent: &mut Agent, gen: Generator, value: Value) -> (r: Result<
    Value,
    crate::error::JsError,
>)
    requires
        old(agent).heap.generators.valid(gen),
        old(agent).heap.generators.spec_get(gen).generator_state is Some,
        (match old(agent).heap.generators.spec_get(gen).generator_state {
            Some(GeneratorState::SuspendedStart(s)) => old(agent).heap.executables.valid(
                s.executable,
            ) && old(agent).heap.executables.spec_get(s.executable).instructions@.len()
                < u32::MAX,
            Some(GeneratorState::SuspendedYield(s)) => old(agent).heap.executables.valid(
                s.executable,
            ) && old(agent).heap.executables.spec_get(s.executable).instructions@.len()
                < u32::MAX,
            _ => true,
        }),
        old(agent).heap.objects@.len() < u32::MAX,
        old(agent).heap.strings@.len() < u32::MAX,
        old(agent).heap.errors@.len() < u32::MAX,
    ensures
        final(agent).heap.generators.valid(gen),
        match old(agent).heap.generators.spec_get(gen).generator_state {
            Some(GeneratorState::Executing) => r is Err && final(agent).heap.generators.spec_get(gen).generator_state matches Some(GeneratorState::Executing),
            Some(GeneratorState::Completed) => (r matches Ok(val) && val matches Value::Object(o)
                && final(agent).heap.objects.valid(o) && iter_result_ok(
                final(agent).heap.objects.spec_get(o),
                Value::Undefined,
                true,
            )) && final(agent).heap.generators.spec_get(gen).generator_state matches Some(
                GeneratorState::Completed,
            ),
            Some(GeneratorState::SuspendedStart(s)) => generator_resume_post(
                old(agent).heap.executables.spec_get(s.executable),
                s.vm.resumed_state(Value::Undefined),
                s.executable,
                final(agent).heap.generators.spec_get(gen).generator_state,
                final(agent).heap.objects,
                r,
            ),
            Some(GeneratorState::SuspendedYield(s)) => generator_resume_post(
                old(agent).heap.executables.spec_get(s.executable),
                s.vm.resumed_state(value),
                s.executable,
                final(agent).heap.generators.spec_get(gen).generator_state,
                final(agent).heap.objects,
                r,
            ),
            None => false,
        },
{
    let record = agent.heap.generators.get_mut(gen);
    let mut state: Option<GeneratorState> = Some(GeneratorState::Executing);
    core::mem::swap(&mut state, &mut record.generator_state);
    match state {
        Some(GeneratorState::Executing) => {
            let record = agent.heap.generators.get_mut(gen);
            record.generator_state = Some(GeneratorState::Executing);
            let e = agent.throw_exception(
                crate::error::ExceptionType::TypeError,
                "generator already running",
            );
            Err(e)
        },
        Some(GeneratorState::Completed) => {
            let record = agent.heap.generators.get_mut(gen);
            record.generator_state = Some(GeneratorState::Completed);
            let obj = create_iter_result_object(agent, Value::Undefined, true);
            Ok(Value::Object(obj))
        },
        Some(GeneratorState::SuspendedStart(s)) => {
            let SuspendedGeneratorState { vm, executable, execution_context } = s;
            let exe_ref = agent.heap.executables.get(executable);
            let outcome = vm.resume(exe_ref, Value::Undefined);
            generator_settle(agent, gen, executable, execution_context, outcome)
        },
        Some(GeneratorState::SuspendedYield(s)) => {
            let SuspendedGeneratorState { vm, executable, execution_context } = s;
            let exe_ref = agent.heap.executables.get(executable);
            let outcome = vm.resume(exe_ref, value);
            generator_settle(agent, gen, executable, execution_context, outcome)
        },
        None => {
            proof {
                assert(false);
            }
            vstd::pervasive::unreached()
        },
    }
}

/// Park or complete a generator according to how its body stopped, and build
/// the caller's answer.
fn generator_settle(
    agent: &mut Agent,
    gen: Generator,
    executable: crate::vm::Executable,
    execution_context: ExecutionContext,
    outcome: crate::vm::ExecutionResult,
) -> (r: Result<Value, crate::error::JsError>)
    requires
        old(agent).heap.generators.valid(gen),
        old(agent).heap.objects@.len() < u32::MAX,
        old(agent).heap.strings@.len() < u32::MAX,
        old(agent).heap.errors@.len() < u32::MAX,
    ensures
        final(agent).heap.generators.valid(gen),
        match crate::vm::spec_outcome_of(outcome) {
            crate::vm::SpecOutcome::Yield(vm_state, v) => {
                &&& (r matches Ok(val) && val matches Value::Object(o) && final(agent).heap.objects.valid(o) && iter_result_ok(
                    final(agent).heap.objects.spec_get(o),
                    v,
                    false,
                ))
                &&& (final(agent).heap.generators.spec_get(gen).generator_state matches Some(
                    GeneratorState::SuspendedYield(s2),
                ) && s2.vm.state() == vm_state && s2.executable == executable)
            },
            crate::vm::SpecOutcome::Return(v) => {
                &&& (r matches Ok(val) && val matches Value::Object(o) && final(agent).heap.objects.valid(o) && iter_result_ok(
                    final(agent).heap.objects.spec_get(o),
                    v,
                    true,
                ))
                &&& final(agent).heap.generators.spec_get(gen).generator_state matches Some(
                    GeneratorState::Completed,
                )
            },
            crate::vm::SpecOutcome::Throw(v) => {
                &&& (r matches Err(e) && e.spec_value() == v)
                &&& final(agent).heap.generators.spec_get(gen).generator_state matches Some(
                    GeneratorState::Completed,
                )
            },
            crate::vm::SpecOutcome::Await(_, _) => {
                &&& r is Err
                &&& final(agent).heap.generators.spec_get(gen).generator_state matches Some(
                    GeneratorState::Completed,
                )
            },
        },
{
    match outcome {
        crate::vm::ExecutionResult::Yield { vm, yielded_value } => {
            let record = agent.heap.generators.get_mut(gen);
            record.generator_state = Some(
                GeneratorState::SuspendedYield(
                    SuspendedGeneratorState { vm, executable, execution_context },
                ),
            );
            let obj = create_iter_result_object(agent, yielded_value, false);
            Ok(Value::Object(obj))
        },
        crate::vm::ExecutionResult::Return(v) => {
            let record = agent.heap.generators.get_mut(gen);
            record.generator_state = Some(GeneratorState::Completed);
            let obj = create_iter_result_object(agent, v, true);
            Ok(Value::Object(obj))
        },
        crate::vm::ExecutionResult::Throw(e) => {
            let record = agent.heap.generators.get_mut(gen);
            record.generator_state = Some(GeneratorState::Completed);
            Err(e)
        },
        crate::vm::ExecutionResult::Await { .. } => {
            let record = agent.heap.generators.get_mut(gen);
            record.generator_state = Some(GeneratorState::Completed);
            let e = agent.throw_exception(
                crate::error::ExceptionType::TypeError,
                "await outside an async function",
            );
            Err(e)
        },
    }
}

/// Finish a generator from outside: `return(value)`.
///
/// On a completed generator this answers `{ value, done:true }` immediately,
/// without re-entering the body; a suspended generator completes without
/// running further. Re-entering a running generator is a `TypeError`.
pub fn generator_return(agent: &mut Agent, gen: Generator, value: Value) -> (r: Result<
    Value,
    crate::error::JsError,
>)
    requires
        old(agent).heap.generators.valid(gen),
        old(agent).heap.generators.spec_get(gen).generator_state is Some,
        old(agent).heap.objects@.len() < u32::MAX,
        old(agent).heap.strings@.len() < u32::MAX,
        old(agent).heap.errors@.len() < u32::MAX,
    ensures
        final(agent).heap.generators.valid(gen),
        match old(agent).heap.generators.spec_get(gen).generator_state {
            Some(GeneratorState::Executing) => r is Err && final(agent).heap.generators.spec_get(gen).generator_state matches Some(GeneratorState::Executing),
            Some(_) => (r matches Ok(val) && val matches Value::Object(o) && final(agent).heap.objects.valid(o) && iter_result_ok(
                final(agent).heap.objects.spec_get(o),
                value,
                true,
            )) && final(agent).heap.generators.spec_get(gen).generator_state matches Some(
                GeneratorState::Completed,
            ),
            None => false,
        },
{
    let record = agent.heap.generators.get_mut(gen);
    let mut state: Option<GeneratorState> = Some(GeneratorState::Completed);
    core::mem::swap(&mut state, &mut record.generator_state);
    match state {
        Some(GeneratorState::Executing) => {
            let record = agent.heap.generators.get_mut(gen);
            record.generator_state = Some(GeneratorState::Executing);
            let e = agent.throw_exception(
                crate::error::ExceptionType::TypeError,
                "generator already running",
            );
            Err(e)
        },
        Some(_) => {
            let obj = create_iter_result_object(agent, value, true);
            Ok(Value::Object(obj))
        },
        None => {
            proof {
                assert(false);
            }
            vstd::pervasive::unreached()
        },
    }
}

/// Throw into a generator from outside: `throw(error)`.
///
/// A suspended generator receives the exception at its suspension point; the
/// instruction set has no handler ranges, so the injected abrupt completion
/// propagates back out unchanged and the generator completes. A completed
/// generator rethrows immediately.
pub fn generator_throw(agent: &mut Agent, gen: Generator, error: crate::error::JsError) -> (r:
    Result<Value, crate::error::JsError>)
    requires
        old(agent).heap.generators.valid(gen),
        old(agent).heap.generators.spec_get(gen).generator_state is Some,
        old(agent).heap.objects@.len() < u32::MAX,
        old(agent).heap.strings@.len() < u32::MAX,
        old(agent).heap.errors@.len() < u32::MAX,
    ensures
        final(agent).heap.generators.valid(gen),
        match old(agent).heap.generators.spec_get(gen).generator_state {
            Some(GeneratorState::Executing) => r is Err && final(agent).heap.generators.spec_get(gen).generator_state matches Some(GeneratorState::Executing),
            Some(_) => (r matches Err(e) && e.spec_value() == error.spec_value()) && final(agent).heap.generators.spec_get(gen).generator_state matches Some(
                GeneratorState::Completed,
            ),
            None => false,
        },
{
    let record = agent.heap.generators.get_mut(gen);
    let mut state: Option<GeneratorState> = Some(GeneratorState::Completed);
    core::mem::swap(&mut state, &mut record.generator_state);
    match state {
        Some(GeneratorState::Executing) => {
            let record = agent.heap.generators.get_mut(gen);
            record.generator_state = Some(GeneratorState::Executing);
            let e = agent.throw_exception(
                crate::error::ExceptionType::TypeError,
                "generator already running",
            );
            Err(e)
        },
        Some(GeneratorState::SuspendedStart(_)) => Err(error),
        Some(GeneratorState::SuspendedYield(_)) => Err(error),
        Some(GeneratorState::Completed) => Err(error),
        None => {
            proof {
                assert(false);
            }
            vstd::pervasive::unreached()
        },
    }
}

} // verus!
