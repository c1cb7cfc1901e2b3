//! Evaluating function bodies: ordinary calls, async calls, and the creation
//! of generator and async-generator objects.
//!
//! A function's compiled form is placed in the executable arena on its first
//! execution and reused afterwards: compile once, reuse after.

use vstd::prelude::*;

verus! {

use std::collections::VecDeque;

use crate::agent::{Agent, ExecutionContext};
use crate::ast::{AstFunction, FunctionBody};
use crate::async_generator::{AsyncGenerator, AsyncGeneratorHeapData, AsyncGeneratorState};
use crate::error::{ExceptionType, JsError};
use crate::function::{ArgumentsList, ECMAScriptFunction, ECMAScriptFunctionHeapData};
use crate::generator::{GeneratorHeapData, GeneratorState, SuspendedGeneratorState};
use crate::object::{Object, ObjectEntry, ObjectHeapData, PropertyKey};
use crate::promise::{Promise, PromiseCapability, PromiseReactionType};
use crate::string::JsString;
use crate::value::Value;
use crate::vm::{Executable, ExecutableHeapData, ExecutionResult, SuspendedVm, Vm};

/// Allocate a compiled-function record for one parsed function.
pub fn ordinary_function_create(agent: &mut Agent, function: AstFunction) -> (r:
    ECMAScriptFunction)
    requires
        old(agent).heap.ecmascript_functions@.len() < u32::MAX,
    ensures
        final(agent).heap.ecmascript_functions.valid(r),
        r.index() == old(agent).heap.ecmascript_functions@.len(),
        ({
            let record = final(agent).heap.ecmascript_functions.spec_get(r);
            &&& record.compiled_bytecode is None
            &&& record.object_index is None
            &&& record.is_async == function.is_async
            &&& record.is_generator == function.is_generator
            &&& record.ecmascript_code == function.body
            &&& !record.is_constructor
        }),
        final(agent).heap == (crate::heap::Heap {
            ecmascript_functions: final(agent).heap.ecmascript_functions,
            ..old(agent).heap
        }),
        final(agent).realm == old(agent).realm,
{
    let AstFunction { id: _, params, body, is_async, is_generator } = function;
    let data = ECMAScriptFunctionHeapData {
        object_index: None,
        name: None,
        length: 0,
        formal_parameters: params,
        ecmascript_code: body,
        compiled_bytecode: None,
        is_strict: true,
        is_async,
        is_generator,
        is_concise_arrow_function: false,
        lexical_this: false,
        is_constructor: false,
    };
    agent.heap.ecmascript_functions.create(data)
}

/// Record the function's name.
pub fn set_function_name(agent: &mut Agent, function: ECMAScriptFunction, name: JsString)
    requires
        old(agent).heap.ecmascript_functions.valid(function),
    ensures
        final(agent).heap.ecmascript_functions.valid(function),
        final(agent).heap.ecmascript_functions.spec_get(function).name == Some(name),
        final(agent).heap.ecmascript_functions.spec_get(function) == (ECMAScriptFunctionHeapData {
            name: Some(name),
            ..old(agent).heap.ecmascript_functions.spec_get(function)
        }),
        final(agent).heap == (crate::heap::Heap {
            ecmascript_functions: final(agent).heap.ecmascript_functions,
            ..old(agent).heap
        }),
        final(agent).realm == old(agent).realm,
{
    let record = agent.heap.ecmascript_functions.get_mut(function);
    record.name = Some(name);
}

/// Make the function usable as a constructor: mark it, and give it a fresh
/// prototype object whose `constructor` property points back at it.
pub fn make_constructor(agent: &mut Agent, function: ECMAScriptFunction)
    requires
        old(agent).heap.ecmascript_functions.valid(function),
        // Giving a function a second backing object would drop the first:
        // a programming-error-class failure, excluded here.
        old(agent).heap.ecmascript_functions.spec_get(function).object_index is None,
        old(agent).heap.objects@.len() + 2 < u32::MAX,
        old(agent).heap.strings@.len() + 2 < u32::MAX,
    ensures
        final(agent).heap.ecmascript_functions.valid(function),
        final(agent).heap.ecmascript_functions.spec_get(function) == (ECMAScriptFunctionHeapData {
            is_constructor: true,
            object_index: final(agent).heap.ecmascript_functions.spec_get(function).object_index,
            ..old(agent).heap.ecmascript_functions.spec_get(function)
        }),
        final(agent).heap.ecmascript_functions.spec_get(function).object_index is Some,
        final(agent).heap == (crate::heap::Heap {
            ecmascript_functions: final(agent).heap.ecmascript_functions,
            objects: final(agent).heap.objects,
            strings: final(agent).heap.strings,
            ..old(agent).heap
        }),
        final(agent).heap.strings@.len() <= old(agent).heap.strings@.len() + 2,
        final(agent).heap.objects@.len() <= old(agent).heap.objects@.len() + 2,
        final(agent).realm == old(agent).realm,
{
    proof {
        reveal_strlit("constructor");
    }
    let constructor_key = PropertyKey::from_js_string(
        agent.alloc_string_from_bytes(crate::agent::str_to_bytes("constructor")),
    );
    let mut prototype = ObjectHeapData::new_with_prototype(
        Some(Object::Object(agent.realm.intrinsics.object_prototype)),
    );
    prototype.set_entry(
        ObjectEntry {
            key: constructor_key,
            value: Value::ECMAScriptFunction(function),
            writable: true,
            enumerable: false,
            configurable: true,
        },
    );
    let prototype_object = agent.heap.objects.create(prototype);
    proof {
        reveal_strlit("prototype");
    }
    let prototype_key = PropertyKey::from_js_string(
        agent.alloc_string_from_bytes(crate::agent::str_to_bytes("prototype")),
    );
    let mut backing = ObjectHeapData::new_with_prototype(
        Some(Object::Object(agent.realm.intrinsics.object_prototype)),
    );
    backing.set_entry(
        ObjectEntry {
            key: prototype_key,
            value: Value::Object(prototype_object),
            writable: true,
            enumerable: false,
            configurable: false,
        },
    );
    let backing_object = agent.heap.objects.create(backing);
    let record = agent.heap.ecmascript_functions.get_mut(function);
    record.is_constructor = true;
    record.object_index = Some(backing_object);
}

/// Instantiate a function declaration: create the function object, name it
/// (after its identifier, or `default` when anonymous), and give a plain
/// function constructor behaviour. A generator function instead receives a
/// prototype object carrying the right generator prototype.
pub fn instantiate_ordinary_function_object(agent: &mut Agent, function: AstFunction) -> (r:
    ECMAScriptFunction)
    requires
        old(agent).heap.ecmascript_functions@.len() < u32::MAX,
        old(agent).heap.objects@.len() + 4 < u32::MAX,
        old(agent).heap.strings@.len() + 4 < u32::MAX,
    ensures
        final(agent).heap.ecmascript_functions.valid(r),
        ({
            let record = final(agent).heap.ecmascript_functions.spec_get(r);
            &&& record.is_async == function.is_async
            &&& record.is_generator == function.is_generator
            &&& record.name is Some
            &&& (record.is_constructor <==> (!function.is_async && !function.is_generator))
        }),
        final(agent).realm == old(agent).realm,
{
    proof {
        reveal_strlit("default");
        reveal_strlit("prototype");
    }
    let is_async = function.is_async;
    let is_generator = function.is_generator;
    let name_bytes: Vec<u8> = match &function.id {
        Some(id) => {
            let mut copy: Vec<u8> = Vec::new();
            let n = id.len();
            let mut i: usize = 0;
            while i < n
                invariant
                    0 <= i <= n,
                    n == id@.len(),
                    copy@.len() == i,
                decreases n - i,
            {
                copy.push(id[i]);
                i += 1;
            }
            copy
        },
        None => crate::agent::str_to_bytes("default"),
    };
    let name = agent.alloc_string_from_bytes(name_bytes);
    let f = ordinary_function_create(agent, function);
    set_function_name(agent, f, name);
    if !is_async && !is_generator {
        make_constructor(agent, f);
    } else if is_generator {
        // The object at the function's `prototype` property carries the
        // right generator prototype; it is an ordinary object, without the
        // generator internal slots.
        let proto = if is_async {
            agent.realm.intrinsics.async_generator_prototype
        } else {
            agent.realm.intrinsics.generator_prototype
        };
        let prototype_object = agent.heap.objects.create(
            ObjectHeapData::new_with_prototype(Some(Object::Object(proto))),
        );
        let prototype_key = PropertyKey::from_js_string(
            agent.alloc_string_from_bytes(crate::agent::str_to_bytes("prototype")),
        );
        let mut backing = ObjectHeapData::new_with_prototype(
            Some(Object::Object(agent.realm.intrinsics.object_prototype)),
        );
        backing.set_entry(
            ObjectEntry {
                key: prototype_key,
                value: Value::Object(prototype_object),
                writable: true,
                enumerable: false,
                configurable: false,
            },
        );
        let backing_object = agent.heap.objects.create(backing);
        let record = agent.heap.ecmascript_functions.get_mut(f);
        record.object_index = Some(backing_object);
    }
    f
}

/// Instantiate a function expression: like a declaration, but named by the
/// caller (the empty name when none is given).
pub fn instantiate_ordinary_function_expression(
    agent: &mut Agent,
    function: AstFunction,
    name: Option<JsString>,
) -> (r: ECMAScriptFunction)
    requires
        old(agent).heap.ecmascript_functions@.len() < u32::MAX,
        old(agent).heap.objects@.len() + 4 < u32::MAX,
        old(agent).heap.strings@.len() + 4 < u32::MAX,
    ensures
        final(agent).heap.ecmascript_functions.valid(r),
        ({
            let record = final(agent).heap.ecmascript_functions.spec_get(r);
            &&& record.is_async == function.is_async
            &&& record.is_generator == function.is_generator
            &&& (name is Some ==> record.name == name)
            &&& (record.is_constructor <==> (!function.is_async && !function.is_generator))
        }),
        final(agent).realm == old(agent).realm,
{
    let is_async = function.is_async;
    let is_generator = function.is_generator;
    let name = match name {
        Some(name) => name,
        None => JsString::Small(crate::small_string::SmallString::empty()),
    };
    let f = ordinary_function_create(agent, function);
    set_function_name(agent, f, name);
    if !is_async && !is_generator {
        make_constructor(agent, f);
    }
    f
}

/// What the compiler collaborator needs to compile one function body.
pub struct CompileFunctionBodyData {
    pub body: FunctionBody,
    pub is_strict: bool,
    pub is_lexical: bool,
    pub is_concise_body: bool,
    pub is_async: bool,
    pub is_generator: bool,
}

impl CompileFunctionBodyData {
    /// Read the compilation inputs off a function record.
    pub fn new(agent: &Agent, function: ECMAScriptFunction) -> (r: Self)
        requires
            agent.heap.ecmascript_functions.valid(function),
        ensures
            ({
                let record = agent.heap.ecmascript_functions.spec_get(function);
                &&& r.body.instructions@ == record.ecmascript_code.instructions@
                &&& r.body.constants@ == record.ecmascript_code.constants@
                &&& r.body.local_count == record.ecmascript_code.local_count
                &&& r.is_strict == record.is_strict
                &&& r.is_lexical == record.lexical_this
                &&& r.is_concise_body == record.is_concise_arrow_function
                &&& r.is_async == record.is_async
                &&& r.is_generator == record.is_generator
            }),
    {
        let record = agent.heap.ecmascript_functions.get(function);
        CompileFunctionBodyData {
            body: record.ecmascript_code.clone(),
            is_strict: record.is_strict,
            is_lexical: record.lexical_this,
            is_concise_body: record.is_concise_arrow_function,
            is_async: record.is_async,
            is_generator: record.is_generator,
        }
    }
}

/// Place a compiled body in the executable arena.
pub fn compile_function_body(agent: &mut Agent, data: CompileFunctionBodyData) -> (r: Executable)
    requires
        old(agent).heap.executables@.len() < u32::MAX,
    ensures
        final(agent).heap.executables.valid(r),
        r.index() == old(agent).heap.executables@.len(),
        final(agent).heap.executables@.len() == old(agent).heap.executables@.len() + 1,
        final(agent).heap.executables.spec_get(r).instructions@ == data.body.instructions@,
        final(agent).heap.executables.spec_get(r).constants@ == data.body.constants@,
        final(agent).heap.executables.spec_get(r).local_count == data.body.local_count,
        final(agent).heap == (crate::heap::Heap {
            executables: final(agent).heap.executables,
            ..old(agent).heap
        }),
        final(agent).realm == old(agent).realm,
{
    let CompileFunctionBodyData { body, .. } = data;
    let FunctionBody { instructions, constants, local_count } = body;
    agent.heap.executables.create(ExecutableHeapData { instructions, constants, local_count })
}

/// The function's compiled form: the cached executable, or a fresh one
/// compiled and cached now — compile once, reuse after.
pub fn get_or_compile_bytecode(agent: &mut Agent, function: ECMAScriptFunction) -> (r: Executable)
    requires
        old(agent).heap.ecmascript_functions.valid(function),
        old(agent).heap.executables@.len() < u32::MAX,
        (match old(agent).heap.ecmascript_functions.spec_get(function).compiled_bytecode {
            Some(cached) => old(agent).heap.executables.valid(cached),
            None => true,
        }),
    ensures
        final(agent).heap.executables.valid(r),
        final(agent).heap.ecmascript_functions.valid(function),
        final(agent).heap.ecmascript_functions.spec_get(function).compiled_bytecode == Some(r),
        // Reuse: a cached executable is answered as is, untouched.
        (match old(agent).heap.ecmascript_functions.spec_get(function).compiled_bytecode {
            Some(cached) => r == cached && *final(agent) == *old(agent)
                && old(agent).heap.executables.valid(cached),
            None => {
                let code = old(agent).heap.ecmascript_functions.spec_get(
                    function,
                ).ecmascript_code;
                &&& final(agent).heap.executables@.len() == old(agent).heap.executables@.len()
                    + 1
                &&& final(agent).heap.executables.spec_get(r).instructions@
                    == code.instructions@
                &&& final(agent).heap.executables.spec_get(r).constants@ == code.constants@
                &&& final(agent).heap.executables.spec_get(r).local_count == code.local_count
            },
        }),
        final(agent).heap == (crate::heap::Heap {
            ecmascript_functions: final(agent).heap.ecmascript_functions,
            executables: final(agent).heap.executables,
            ..old(agent).heap
        }),
        final(agent).realm == old(agent).realm,
{
    let record = agent.heap.ecmascript_functions.get(function);
    match record.compiled_bytecode {
        Some(exe) => exe,
        None => {
            let data = CompileFunctionBodyData::new(agent, function);
            let exe = compile_function_body(agent, data);
            let record = agent.heap.ecmascript_functions.get_mut(function);
            record.compiled_bytecode = Some(exe);
            exe
        },
    }
}

/// Evaluate a plain function body: run the compiled form to completion.
#[verifier::rlimit(40)]
pub fn evaluate_function_body(agent: &mut Agent, function_object: ECMAScriptFunction, arguments_list: ArgumentsList) -> (r:
    Result<Value, JsError>)
    requires
        old(agent).heap.ecmascript_functions.valid(function_object),
        (match old(agent).heap.ecmascript_functions.spec_get(
            function_object,
        ).compiled_bytecode {
            Some(cached) => old(agent).heap.executables.valid(cached) && old(agent).heap.executables.spec_get(cached).instructions@.len() < u32::MAX,
            None => old(agent).heap.ecmascript_functions.spec_get(
                function_object,
            ).ecmascript_code.instructions@.len() < u32::MAX,
        }),
        old(agent).heap.executables@.len() < u32::MAX,
        old(agent).heap.strings@.len() < u32::MAX,
        old(agent).heap.errors@.len() < u32::MAX,
    ensures
        final(agent).heap.ecmascript_functions.valid(function_object),
        final(agent).heap.ecmascript_functions.spec_get(function_object).compiled_bytecode
            is Some,
        // Compile once, reuse after: a cached executable is run as is, and
        // no second compilation happens.
        (match old(agent).heap.ecmascript_functions.spec_get(
            function_object,
        ).compiled_bytecode {
            Some(cached) => final(agent).heap.ecmascript_functions.spec_get(
                function_object,
            ).compiled_bytecode == Some(cached) && final(agent).heap.executables@ == old(
                agent,
            ).heap.executables@,
            None => final(agent).heap.executables@.len() == old(agent).heap.executables@.len()
                + 1,
        }),
        // The answer is what the small-step semantics of the compiled form
        // gives: a normal completion's value, or a thrown completion's
        // exception; suspension in a plain body is itself an exception.
        ({
            let exe = final(agent).heap.ecmascript_functions.spec_get(
                function_object,
            ).compiled_bytecode->Some_0;
            &&& final(agent).heap.executables.valid(exe)
            &&& exists|n: nat|
                #[trigger] crate::vm::spec_run(
                    final(agent).heap.executables.spec_get(exe),
                    crate::vm::spec_initial_state(
                        final(agent).heap.executables.spec_get(exe),
                        arguments_list.values@,
                    ),
                    n,
                ) matches crate::vm::SpecStep::Done(outcome) && (match outcome {
                    crate::vm::SpecOutcome::Return(v) => r == Ok::<Value, JsError>(v),
                    crate::vm::SpecOutcome::Throw(v) => r matches Err(e) && e.spec_value() == v,
                    crate::vm::SpecOutcome::Yield(_, _) => r is Err,
                    crate::vm::SpecOutcome::Await(_, _) => r is Err,
                })
        }),
{
    let ghost pre = *agent;
    let exe = get_or_compile_bytecode(agent, function_object);
    proof {
        match pre.heap.ecmascript_functions.spec_get(function_object).compiled_bytecode {
            Some(cached) => {
                assert(agent.heap.executables@ == pre.heap.executables@);
                assert(agent.heap.ecmascript_functions.spec_get(function_object).compiled_bytecode
                    == Some(cached));
            },
            None => {
                assert(agent.heap.executables@.len() == pre.heap.executables@.len() + 1);
            },
        }
    }
    let exe_ref = agent.heap.executables.get(exe);
    let ghost exe_data = *exe_ref;
    let ghost init = crate::vm::spec_initial_state(exe_data, arguments_list.values@);
    let outcome = Vm::execute(exe_ref, arguments_list.values.as_slice());
    let ghost witness = choose|n: nat|
        crate::vm::spec_run(exe_data, init, n) == crate::vm::SpecStep::Done(
            crate::vm::spec_outcome_of(outcome),
        );
    proof {
        assert(crate::vm::spec_run(exe_data, init, witness) == crate::vm::SpecStep::Done(
            crate::vm::spec_outcome_of(outcome),
        ));
    }
    match outcome {
        ExecutionResult::Return(v) => {
            proof {
                assert(crate::vm::spec_run(exe_data, init, witness) matches crate::vm::SpecStep::Done(
                    o,
                ) && o == crate::vm::SpecOutcome::Return(v));
            }
            Ok(v)
        },
        ExecutionResult::Throw(e) => Err(e),
        _ => Err(
            agent.throw_exception(
                ExceptionType::TypeError,
                "suspension outside a generator or async function",
            ),
        ),
    }
}

/// An async function parked at an `await`: the snapshot, its compiled body,
/// and the capability of the promise the caller holds. The reaction
/// scheduler hands this back through [`resume_suspended_async_function`]
/// when the awaited value settles.
pub struct SuspendedAsyncFunction {
    pub vm: SuspendedVm,
    pub executable: Executable,
    pub capability: PromiseCapability,
}

/// Evaluate an async function body: run until it returns, throws, or parks
/// on its first `await`. The caller's promise settles on completion; a
/// parked body is handed back for the reaction scheduler to resume.
pub fn evaluate_async_function_body(agent: &mut Agent, function_object: ECMAScriptFunction, arguments_list: ArgumentsList) -> (r: (
    Promise,
    Option<SuspendedAsyncFunction>,
))
    requires
        old(agent).heap.ecmascript_functions.valid(function_object),
        (match old(agent).heap.ecmascript_functions.spec_get(
            function_object,
        ).compiled_bytecode {
            Some(cached) => old(agent).heap.executables.valid(cached) && old(agent).heap.executables.spec_get(cached).instructions@.len() < u32::MAX,
            None => old(agent).heap.ecmascript_functions.spec_get(
                function_object,
            ).ecmascript_code.instructions@.len() < u32::MAX,
        }),
        old(agent).heap.executables@.len() < u32::MAX,
        old(agent).heap.promises@.len() < u32::MAX,
        old(agent).heap.strings@.len() < u32::MAX,
        old(agent).heap.errors@.len() < u32::MAX,
    ensures
        final(agent).heap.promises.valid(r.0),
        r.0.index() == old(agent).heap.promises@.len(),
        final(agent).heap.promises@.len() == old(agent).heap.promises@.len() + 1,
        (match r.1 {
            Some(s) => {
                &&& final(agent).heap.executables.valid(s.executable)
                &&& s.capability.promise == r.0
                &&& final(agent).heap.promises.spec_get(r.0).promise_state is Pending
            },
            None => !(final(agent).heap.promises.spec_get(r.0).promise_state is Pending),
        }),
        // The caller's promise settles exactly as the body's run says: a
        // normal completion fulfils it with the returned value, a thrown
        // completion rejects it with the exception, and an await leaves it
        // pending behind the parked snapshot; a yield in a plain async body
        // is an implementation bug and rejects.
        ({
            let exe = final(agent).heap.ecmascript_functions.spec_get(
                function_object,
            ).compiled_bytecode->Some_0;
            &&& final(agent).heap.ecmascript_functions.valid(function_object)
            &&& final(agent).heap.executables.valid(exe)
            &&& exists|n: nat|
                #[trigger] crate::vm::spec_run(
                    final(agent).heap.executables.spec_get(exe),
                    crate::vm::spec_initial_state(
                        final(agent).heap.executables.spec_get(exe),
                        arguments_list.values@,
                    ),
                    n,
                ) matches crate::vm::SpecStep::Done(outcome) && (match outcome {
                    crate::vm::SpecOutcome::Return(v) => r.1 is None && (final(agent).heap.promises.spec_get(r.0).promise_state matches crate::promise::PromiseState::Fulfilled(
                        w,
                    ) && w == v),
                    crate::vm::SpecOutcome::Throw(v) => r.1 is None && (final(agent).heap.promises.spec_get(r.0).promise_state matches crate::promise::PromiseState::Rejected(
                        w,
                    ) && w == v),
                    crate::vm::SpecOutcome::Await(vm_state, _) => r.1 matches Some(s)
                        && s.vm.state() == vm_state && s.executable == exe,
                    crate::vm::SpecOutcome::Yield(_, _) => r.1 is None && final(agent).heap.promises.spec_get(r.0).promise_state is Rejected,
                })
        }),
{
    let exe = get_or_compile_bytecode(agent, function_object);
    let capability = PromiseCapability::new(agent);
    let exe_ref = agent.heap.executables.get(exe);
    let ghost exe_data = *exe_ref;
    let ghost init = crate::vm::spec_initial_state(exe_data, arguments_list.values@);
    let outcome = Vm::execute(exe_ref, arguments_list.values.as_slice());
    let ghost witness = choose|n: nat|
        crate::vm::spec_run(exe_data, init, n) == crate::vm::SpecStep::Done(
            crate::vm::spec_outcome_of(outcome),
        );
    proof {
        assert(crate::vm::spec_run(exe_data, init, witness) == crate::vm::SpecStep::Done(
            crate::vm::spec_outcome_of(outcome),
        ));
    }
    match outcome {
        ExecutionResult::Return(v) => {
            capability.resolve(agent, v);
            (capability.promise, None)
        },
        ExecutionResult::Throw(e) => {
            capability.reject(agent, e.value());
            (capability.promise, None)
        },
        ExecutionResult::Await { vm, awaited_value: _ } => {
            // The reaction scheduler owns the awaited value's settlement and
            // calls back in with it.
            (capability.promise, Some(SuspendedAsyncFunction { vm, executable: exe, capability }))
        },
        ExecutionResult::Yield { .. } => {
            // A yield outside a generator body: complete abruptly.
            let e = agent.throw_exception(ExceptionType::TypeError, "yield outside a generator");
            capability.reject(agent, e.value());
            (capability.promise, None)
        },
    }
}

/// Resume an async function whose awaited value settled: continue the body
/// (or throw into it), settling the caller's promise on completion, or park
/// again at the next `await`.
pub fn resume_suspended_async_function(
    agent: &mut Agent,
    suspended: SuspendedAsyncFunction,
    reaction_type: PromiseReactionType,
    value: Value,
) -> (r: Option<SuspendedAsyncFunction>)
    requires
        old(agent).heap.executables.valid(suspended.executable),
        old(agent).heap.executables.spec_get(suspended.executable).instructions@.len()
            < u32::MAX,
        old(agent).heap.promises.valid(suspended.capability.promise),
        old(agent).heap.promises.spec_get(suspended.capability.promise).promise_state
            is Pending,
    ensures
        final(agent).heap.promises.valid(suspended.capability.promise),
        (match r {
            Some(s) => {
                &&& s.executable == suspended.executable
                &&& s.capability == suspended.capability
                &&& final(agent).heap.promises.spec_get(
                    suspended.capability.promise,
                ).promise_state is Pending
            },
            None => !(final(agent).heap.promises.spec_get(
                suspended.capability.promise,
            ).promise_state is Pending),
        }),
        // A fulfilment resumes the body with the value and the promise
        // settles per the run's outcome; a rejection throws into the body,
        // which has no handler ranges, so it rejects the promise unchanged.
        (reaction_type == PromiseReactionType::Fulfill ==> exists|n: nat|
            #[trigger] crate::vm::spec_run(
                old(agent).heap.executables.spec_get(suspended.executable),
                suspended.vm.resumed_state(value),
                n,
            ) matches crate::vm::SpecStep::Done(outcome) && (match outcome {
                crate::vm::SpecOutcome::Return(v) => r is None && (final(agent).heap.promises.spec_get(suspended.capability.promise).promise_state
                    matches crate::promise::PromiseState::Fulfilled(w) && w == v),
                crate::vm::SpecOutcome::Throw(v) => r is None && (final(agent).heap.promises.spec_get(suspended.capability.promise).promise_state
                    matches crate::promise::PromiseState::Rejected(w) && w == v),
                crate::vm::SpecOutcome::Await(vm_state, _) => r matches Some(s) && s.vm.state()
                    == vm_state,
                crate::vm::SpecOutcome::Yield(_, _) => r is None && final(agent).heap.promises.spec_get(suspended.capability.promise).promise_state
                    is Rejected,
            })),
        (reaction_type == PromiseReactionType::Reject ==> r is None && (final(agent).heap.promises.spec_get(suspended.capability.promise).promise_state
            matches crate::promise::PromiseState::Rejected(w) && w == value)),
{
    let exe_ref = agent.heap.executables.get(suspended.executable);
    let ghost exe_data = *exe_ref;
    let outcome = match reaction_type {
        PromiseReactionType::Fulfill => suspended.vm.resume(exe_ref, value),
        PromiseReactionType::Reject => suspended.vm.resume_throw(exe_ref, value),
    };
    let ghost witness = choose|n: nat|
        crate::vm::spec_run(exe_data, suspended.vm.resumed_state(value), n)
            == crate::vm::SpecStep::Done(crate::vm::spec_outcome_of(outcome));
    proof {
        if reaction_type == PromiseReactionType::Fulfill {
            assert(crate::vm::spec_run(exe_data, suspended.vm.resumed_state(value), witness)
                == crate::vm::SpecStep::Done(crate::vm::spec_outcome_of(outcome)));
        }
    }
    match outcome {
        ExecutionResult::Return(v) => {
            suspended.capability.resolve(agent, v);
            None
        },
        ExecutionResult::Throw(e) => {
            suspended.capability.reject(agent, e.value());
            None
        },
        ExecutionResult::Await { vm, awaited_value: _ } => Some(
            SuspendedAsyncFunction {
                vm,
                executable: suspended.executable,
                capability: suspended.capability,
            },
        ),
        ExecutionResult::Yield { .. } => {
            suspended.capability.reject(agent, Value::Undefined);
            None
        },
    }
}

/// Evaluate a generator body: run the argument-binding prologue to its
/// opening yield, then park the snapshot in a fresh generator object,
/// suspended at its start.
pub fn evaluate_generator_body(agent: &mut Agent, function_object: ECMAScriptFunction, arguments_list: ArgumentsList) -> (r:
    Result<Value, JsError>)
    requires
        old(agent).heap.ecmascript_functions.valid(function_object),
        (match old(agent).heap.ecmascript_functions.spec_get(
            function_object,
        ).compiled_bytecode {
            Some(cached) => old(agent).heap.executables.valid(cached) && old(agent).heap.executables.spec_get(cached).instructions@.len() < u32::MAX,
            None => old(agent).heap.ecmascript_functions.spec_get(
                function_object,
            ).ecmascript_code.instructions@.len() < u32::MAX,
        }),
        old(agent).heap.executables@.len() < u32::MAX,
        old(agent).heap.generators@.len() < u32::MAX,
        old(agent).heap.strings@.len() < u32::MAX,
        old(agent).heap.errors@.len() < u32::MAX,
    ensures
        final(agent).heap.ecmascript_functions.valid(function_object),
        final(agent).heap.ecmascript_functions.spec_get(function_object).compiled_bytecode
            is Some,
        // The argument-binding prologue runs per the small-step semantics:
        // a throw is the answer and creates no generator; the opening yield
        // parks exactly its snapshot in a fresh generator, suspended at its
        // start; a prologue that completes without yielding is an
        // implementation bug, answered abruptly.
        ({
            let exe = final(agent).heap.ecmascript_functions.spec_get(
                function_object,
            ).compiled_bytecode->Some_0;
            &&& final(agent).heap.executables.valid(exe)
            &&& exists|n: nat|
                #[trigger] crate::vm::spec_run(
                    final(agent).heap.executables.spec_get(exe),
                    crate::vm::spec_initial_state(
                        final(agent).heap.executables.spec_get(exe),
                        arguments_list.values@,
                    ),
                    n,
                ) matches crate::vm::SpecStep::Done(outcome) && (match outcome {
                    crate::vm::SpecOutcome::Yield(vm_state, _) => r matches Ok(v) && v matches Value::Generator(
                        g,
                    ) && final(agent).heap.generators.valid(g) && (final(agent).heap.generators.spec_get(g).generator_state matches Some(
                        GeneratorState::SuspendedStart(s),
                    ) && s.vm.state() == vm_state && s.executable == exe) && final(agent).heap.generators@.len() == old(agent).heap.generators@.len() + 1,
                    crate::vm::SpecOutcome::Throw(v) => r matches Err(e) && e.spec_value() == v
                        && final(agent).heap.generators@ == old(agent).heap.generators@,
                    crate::vm::SpecOutcome::Return(_) => r is Err && final(agent).heap.generators@
                        == old(agent).heap.generators@,
                    crate::vm::SpecOutcome::Await(_, _) => r is Err && final(agent).heap.generators@ == old(agent).heap.generators@,
                })
        }),
{
    let exe = get_or_compile_bytecode(agent, function_object);
    let exe_ref = agent.heap.executables.get(exe);
    let ghost exe_data = *exe_ref;
    let ghost init = crate::vm::spec_initial_state(exe_data, arguments_list.values@);
    let outcome = Vm::execute(exe_ref, arguments_list.values.as_slice());
    let ghost witness = choose|n: nat|
        crate::vm::spec_run(exe_data, init, n) == crate::vm::SpecStep::Done(
            crate::vm::spec_outcome_of(outcome),
        );
    proof {
        assert(crate::vm::spec_run(exe_data, init, witness) == crate::vm::SpecStep::Done(
            crate::vm::spec_outcome_of(outcome),
        ));
    }
    let vm = match outcome {
        ExecutionResult::Throw(e) => {
            return Err(e);
        },
        ExecutionResult::Yield { vm, yielded_value: _ } => vm,
        _ => {
            return Err(
                agent.throw_exception(
                    ExceptionType::TypeError,
                    "generator prologue did not yield",
                ),
            );
        },
    };
    // After argument binding the snapshot holds no unrooted temporaries;
    // the engine asserts as much at every suspension boundary.
    let gc_safe = vm.is_gc_safe();
    proof {
        assert(gc_safe);
    }
    let execution_context = ExecutionContext { function: Some(function_object) };
    let state = GeneratorState::SuspendedStart(
        SuspendedGeneratorState { vm, executable: exe, execution_context },
    );
    let generator = agent.heap.generators.create(
        GeneratorHeapData { object_index: None, generator_state: Some(state) },
    );
    Ok(Value::Generator(generator))
}

/// Evaluate an async-generator body: run the argument-binding prologue to
/// its opening yield, then park the snapshot in a fresh async-generator
/// object, suspended at its start with an empty request queue.
pub fn evaluate_async_generator_body(agent: &mut Agent, function_object: ECMAScriptFunction, arguments_list: ArgumentsList) -> (r:
    Result<Value, JsError>)
    requires
        old(agent).heap.ecmascript_functions.valid(function_object),
        (match old(agent).heap.ecmascript_functions.spec_get(
            function_object,
        ).compiled_bytecode {
            Some(cached) => old(agent).heap.executables.valid(cached) && old(agent).heap.executables.spec_get(cached).instructions@.len() < u32::MAX,
            None => old(agent).heap.ecmascript_functions.spec_get(
                function_object,
            ).ecmascript_code.instructions@.len() < u32::MAX,
        }),
        old(agent).heap.executables@.len() < u32::MAX,
        old(agent).heap.async_generators@.len() < u32::MAX,
        old(agent).heap.strings@.len() < u32::MAX,
        old(agent).heap.errors@.len() < u32::MAX,
    ensures
        final(agent).heap.ecmascript_functions.valid(function_object),
        final(agent).heap.ecmascript_functions.spec_get(function_object).compiled_bytecode
            is Some,
        // As for the plain generator: the prologue's throw is the answer
        // and creates nothing; its opening yield parks exactly its snapshot
        // in a fresh machine, suspended at its start with an empty queue.
        ({
            let exe = final(agent).heap.ecmascript_functions.spec_get(
                function_object,
            ).compiled_bytecode->Some_0;
            &&& final(agent).heap.executables.valid(exe)
            &&& exists|n: nat|
                #[trigger] crate::vm::spec_run(
                    final(agent).heap.executables.spec_get(exe),
                    crate::vm::spec_initial_state(
                        final(agent).heap.executables.spec_get(exe),
                        arguments_list.values@,
                    ),
                    n,
                ) matches crate::vm::SpecStep::Done(outcome) && (match outcome {
                    crate::vm::SpecOutcome::Yield(vm_state, _) => r matches Ok(v)
                        && v matches Value::AsyncGenerator(g) && final(agent).heap.async_generators.valid(g.0) && (final(agent).heap.async_generators.spec_get(g.0).async_generator_state matches Some(
                        AsyncGeneratorState::SuspendedStart { vm: svm, queue, .. },
                    ) && svm.state() == vm_state && queue@.len() == 0) && final(agent).heap.async_generators.spec_get(g.0).executable == Some(exe) && final(agent).heap.async_generators@.len() == old(agent).heap.async_generators@.len()
                        + 1,
                    crate::vm::SpecOutcome::Throw(v) => r matches Err(e) && e.spec_value() == v
                        && final(agent).heap.async_generators@ == old(agent).heap.async_generators@,
                    crate::vm::SpecOutcome::Return(_) => r is Err && final(agent).heap.async_generators@ == old(agent).heap.async_generators@,
                    crate::vm::SpecOutcome::Await(_, _) => r is Err && final(agent).heap.async_generators@ == old(agent).heap.async_generators@,
                })
        }),
{
    let exe = get_or_compile_bytecode(agent, function_object);
    let exe_ref = agent.heap.executables.get(exe);
    let ghost exe_data = *exe_ref;
    let ghost init = crate::vm::spec_initial_state(exe_data, arguments_list.values@);
    let outcome = Vm::execute(exe_ref, arguments_list.values.as_slice());
    let ghost witness = choose|n: nat|
        crate::vm::spec_run(exe_data, init, n) == crate::vm::SpecStep::Done(
            crate::vm::spec_outcome_of(outcome),
        );
    proof {
        assert(crate::vm::spec_run(exe_data, init, witness) == crate::vm::SpecStep::Done(
            crate::vm::spec_outcome_of(outcome),
        ));
    }
    let vm = match outcome {
        ExecutionResult::Throw(e) => {
            return Err(e);
        },
        ExecutionResult::Yield { vm, yielded_value: _ } => vm,
        _ => {
            return Err(
                agent.throw_exception(
                    ExceptionType::TypeError,
                    "generator prologue did not yield",
                ),
            );
        },
    };
    let gc_safe = vm.is_gc_safe();
    proof {
        assert(gc_safe);
    }
    let execution_context = ExecutionContext { function: Some(function_object) };
    let state = AsyncGeneratorState::SuspendedStart {
        vm,
        execution_context,
        queue: VecDeque::new(),
    };
    let generator = agent.heap.async_generators.create(
        AsyncGeneratorHeapData {
            object_index: None,
            async_generator_state: Some(state),
            executable: Some(exe),
        },
    );
    Ok(Value::AsyncGenerator(crate::async_generator::AsyncGenerator(generator)))
}

} // verus!
