//! The async-generator protocol: FIFO request servicing, interleaved calls,
//! and draining on `return`.

use nova_vm::agent::Agent;
use nova_vm::ast::{FormalParameters, FunctionBody};
use nova_vm::async_generator::{
    async_generator_next, async_generator_return, AsyncGenerator, AsyncGeneratorState,
};
use nova_vm::function::{ArgumentsList, ECMAScriptFunctionHeapData};
use nova_vm::function_definitions::{
    evaluate_async_function_body, evaluate_async_generator_body, resume_suspended_async_function,
};
use nova_vm::object::PropertyKey;
use nova_vm::promise::{Promise, PromiseReactionType, PromiseState};
use nova_vm::small_integer::SmallInteger;
use nova_vm::small_string::SmallString;
use nova_vm::value::Value;
use nova_vm::vm::Instruction;

fn make_async_generator(agent: &mut Agent) -> AsyncGenerator {
    // Prologue yields once; the body then yields 1, yields 2, yields 3, and
    // returns undefined.
    let f = agent
        .heap
        .ecmascript_functions
        .create(ECMAScriptFunctionHeapData {
            object_index: None,
            name: None,
            length: 0,
            formal_parameters: FormalParameters { items: vec![] },
            ecmascript_code: FunctionBody {
                instructions: vec![
                    Instruction::PushUndefined,
                    Instruction::Yield,
                    Instruction::LoadConstant(0),
                    Instruction::Yield,
                    Instruction::Pop,
                    Instruction::LoadConstant(1),
                    Instruction::Yield,
                    Instruction::Pop,
                    Instruction::LoadConstant(2),
                    Instruction::Yield,
                    Instruction::Pop,
                    Instruction::ReturnUndefined,
                ],
                constants: vec![
                    Value::Integer(SmallInteger::from_i64(1)),
                    Value::Integer(SmallInteger::from_i64(2)),
                    Value::Integer(SmallInteger::from_i64(3)),
                ],
                local_count: 0,
            },
            compiled_bytecode: None,
            is_strict: true,
            is_async: true,
            is_generator: true,
            is_concise_arrow_function: false,
            lexical_this: false,
            is_constructor: false,
        });
    match evaluate_async_generator_body(agent, f, ArgumentsList::new()).unwrap() {
        Value::AsyncGenerator(g) => g,
        _ => panic!("an async-generator body evaluates to an async generator"),
    }
}

fn settled_iter_result(agent: &Agent, p: Promise) -> Option<(Value, bool)> {
    match agent.heap.promises.get(p).promise_state {
        PromiseState::Fulfilled(v) => {
            let o = match v {
                Value::Object(o) => o,
                _ => panic!("an iterator result is an object"),
            };
            let record = agent.heap.objects.get(o);
            let value = record
                .get(PropertyKey::SmallString(SmallString::from_bytes(b"value")))
                .expect("a `value` property");
            let done = match record
                .get(PropertyKey::SmallString(SmallString::from_bytes(b"done")))
                .expect("a `done` property")
            {
                Value::Boolean(b) => b,
                _ => panic!("`done` is a boolean"),
            };
            Some((value, done))
        }
        PromiseState::Pending => None,
        PromiseState::Rejected(_) => panic!("unexpected rejection"),
    }
}

/// Three interleaved calls — `next()`, `next()`, `return(9)` — issued before
/// the first settles are serviced strictly first-in, first-out: the two
/// queued `next()` calls resolve with their own yields, and the `return`
/// then drains the machine to completion with its value.
#[test]
fn interleaved_requests_service_fifo() {
    let mut agent = Agent::new();
    let g = make_async_generator(&mut agent);
    // First call starts the body; it parks on the yield's implicit await.
    let p1 = async_generator_next(&mut agent, g, Value::Undefined);
    assert!(g.is_active(&agent));
    assert!(g.is_executing_await(&agent));
    // Two more calls arrive while still executing: they only queue.
    let p2 = async_generator_next(&mut agent, g, Value::Undefined);
    let p3 = async_generator_return(&mut agent, g, Value::Integer(SmallInteger::from_i64(9)));
    assert!(g.is_active(&agent));
    assert_eq!(settled_iter_result(&agent, p1), None);
    assert_eq!(settled_iter_result(&agent, p2), None);
    assert_eq!(settled_iter_result(&agent, p3), None);
    // The yield's implicit await settles: the first request resolves with
    // the first yield, and the machine services the next request at once,
    // parking on the second yield's await.
    g.resume_await(
        &mut agent,
        PromiseReactionType::Fulfill,
        Value::Integer(SmallInteger::from_i64(1)),
    );
    assert_eq!(
        settled_iter_result(&agent, p1),
        Some((Value::Integer(SmallInteger::from_i64(1)), false))
    );
    assert_eq!(settled_iter_result(&agent, p2), None);
    g.resume_await(
        &mut agent,
        PromiseReactionType::Fulfill,
        Value::Integer(SmallInteger::from_i64(2)),
    );
    assert_eq!(
        settled_iter_result(&agent, p2),
        Some((Value::Integer(SmallInteger::from_i64(2)), false))
    );
    // Now the return request is at the front: the machine parks on the
    // return's implicit await; cancellation was not preemptive.
    assert_eq!(settled_iter_result(&agent, p3), None);
    g.resume_await(
        &mut agent,
        PromiseReactionType::Fulfill,
        Value::Integer(SmallInteger::from_i64(9)),
    );
    assert_eq!(
        settled_iter_result(&agent, p3),
        Some((Value::Integer(SmallInteger::from_i64(9)), true))
    );
    assert!(g.is_completed(&agent));
    assert!(g.queue_is_empty(&agent));
    // Every resumed run pushed the saved frame and dispatching popped it:
    // the context stack is balanced.
    assert!(agent.execution_context_stack.is_empty());
}

/// `return` on a machine that has not started drains the queue directly to
/// the return value.
#[test]
fn return_on_suspended_start_drains() {
    let mut agent = Agent::new();
    let g = make_async_generator(&mut agent);
    let p = async_generator_return(&mut agent, g, Value::Integer(SmallInteger::from_i64(5)));
    // Draining: the machine awaits the return value; is_active holds.
    assert!(g.is_draining_queue(&agent));
    assert!(g.is_active(&agent));
    g.resume_await(
        &mut agent,
        PromiseReactionType::Fulfill,
        Value::Integer(SmallInteger::from_i64(5)),
    );
    assert_eq!(
        settled_iter_result(&agent, p),
        Some((Value::Integer(SmallInteger::from_i64(5)), true))
    );
    assert!(g.is_completed(&agent));
}

/// `next` on a completed machine answers `{ undefined, done: true }` without
/// running the body.
#[test]
fn next_on_completed_machine() {
    let mut agent = Agent::new();
    let g = make_async_generator(&mut agent);
    {
        let record = agent.heap.async_generators.get_mut(g.0);
        let queue = match record.async_generator_state.take() {
            Some(AsyncGeneratorState::SuspendedStart { queue, .. }) => queue,
            _ => panic!("fresh machines are suspended at their start"),
        };
        record.async_generator_state = Some(AsyncGeneratorState::Completed(queue));
    }
    let p = async_generator_next(&mut agent, g, Value::Undefined);
    assert_eq!(settled_iter_result(&agent, p), Some((Value::Undefined, true)));
}

/// A rejection delivered during a yield-kind await throws into the body
/// rather than yielding: the body completes abruptly and the first request
/// rejects.
#[test]
fn rejection_during_yield_await_throws_into_body() {
    let mut agent = Agent::new();
    let g = make_async_generator(&mut agent);
    let p1 = async_generator_next(&mut agent, g, Value::Undefined);
    assert!(g.is_executing_await(&agent));
    g.resume_await(
        &mut agent,
        PromiseReactionType::Reject,
        Value::Boolean(false),
    );
    match agent.heap.promises.get(p1).promise_state {
        PromiseState::Rejected(v) => assert_eq!(v, Value::Boolean(false)),
        _ => panic!("the first request rejects"),
    }
    assert!(g.is_completed(&agent));
}

/// An async function parks at `await` with a pending promise and settles it
/// on resumption.
#[test]
fn async_function_awaits_and_resumes() {
    let mut agent = Agent::new();
    let f = agent
        .heap
        .ecmascript_functions
        .create(ECMAScriptFunctionHeapData {
            object_index: None,
            name: None,
            length: 0,
            formal_parameters: FormalParameters { items: vec![] },
            ecmascript_code: FunctionBody {
                instructions: vec![
                    Instruction::LoadLocal(0),
                    Instruction::Await,
                    Instruction::Return,
                ],
                constants: vec![],
                local_count: 1,
            },
            compiled_bytecode: None,
            is_strict: true,
            is_async: true,
            is_generator: false,
            is_concise_arrow_function: false,
            lexical_this: false,
            is_constructor: false,
        });
    let mut args = ArgumentsList::new();
    args.values.push(Value::Integer(SmallInteger::from_i64(40)));
    let (promise, suspended) = evaluate_async_function_body(&mut agent, f, args);
    let suspended = suspended.expect("the body parks at its await");
    assert!(matches!(
        agent.heap.promises.get(promise).promise_state,
        PromiseState::Pending
    ));
    // The awaited value settles: the body resumes with it and returns it.
    let next = resume_suspended_async_function(
        &mut agent,
        suspended,
        PromiseReactionType::Fulfill,
        Value::Integer(SmallInteger::from_i64(42)),
    );
    assert!(next.is_none());
    match agent.heap.promises.get(promise).promise_state {
        PromiseState::Fulfilled(v) => {
            assert_eq!(v, Value::Integer(SmallInteger::from_i64(42)))
        }
        _ => panic!("the promise fulfils with the returned value"),
    }
    // A rejection at the await propagates to the caller's promise.
    let f2 = agent
        .heap
        .ecmascript_functions
        .create(ECMAScriptFunctionHeapData {
            object_index: None,
            name: None,
            length: 0,
            formal_parameters: FormalParameters { items: vec![] },
            ecmascript_code: FunctionBody {
                instructions: vec![
                    Instruction::PushUndefined,
                    Instruction::Await,
                    Instruction::Return,
                ],
                constants: vec![],
                local_count: 0,
            },
            compiled_bytecode: None,
            is_strict: true,
            is_async: true,
            is_generator: false,
            is_concise_arrow_function: false,
            lexical_this: false,
            is_constructor: false,
        });
    let (promise2, suspended2) = evaluate_async_function_body(&mut agent, f2, ArgumentsList::new());
    let suspended2 = suspended2.expect("parks at the await");
    resume_suspended_async_function(
        &mut agent,
        suspended2,
        PromiseReactionType::Reject,
        Value::Null,
    );
    match agent.heap.promises.get(promise2).promise_state {
        PromiseState::Rejected(v) => assert_eq!(v, Value::Null),
        _ => panic!("the promise rejects with the thrown value"),
    }
}
