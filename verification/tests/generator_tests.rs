//! The generator protocol and the engine underneath it.

use nova_vm::agent::Agent;
use nova_vm::ast::{FormalParameters, FunctionBody};
use nova_vm::function::{ArgumentsList, ECMAScriptFunctionHeapData};
use nova_vm::function_definitions::{evaluate_function_body, evaluate_generator_body};
use nova_vm::generator::{generator_next, generator_return, generator_throw, GeneratorState};
use nova_vm::object::PropertyKey;
use nova_vm::small_integer::SmallInteger;
use nova_vm::small_string::SmallString;
use nova_vm::value::Value;
use nova_vm::vm::Instruction;

fn make_function(
    agent: &mut Agent,
    instructions: Vec<Instruction>,
    constants: Vec<Value>,
    local_count: u32,
    is_generator: bool,
) -> nova_vm::function::ECMAScriptFunction {
    agent
        .heap
        .ecmascript_functions
        .create(ECMAScriptFunctionHeapData {
            object_index: None,
            name: None,
            length: 0,
            formal_parameters: FormalParameters { items: vec![] },
            ecmascript_code: FunctionBody {
                instructions,
                constants,
                local_count,
            },
            compiled_bytecode: None,
            is_strict: true,
            is_async: false,
            is_generator,
            is_concise_arrow_function: false,
            lexical_this: false,
            is_constructor: false,
        })
}

fn iter_result(agent: &Agent, v: Value) -> (Value, bool) {
    let o = match v {
        Value::Object(o) => o,
        _ => panic!("an iterator result is an object"),
    };
    let record = agent.heap.objects.get(o);
    let value = record
        .get(PropertyKey::SmallString(SmallString::from_bytes(b"value")))
        .expect("a `value` property");
    let done = match record
        .get(PropertyKey::SmallString(SmallString::from_bytes(b"done")))
        .expect("a `done` property")
    {
        Value::Boolean(b) => b,
        _ => panic!("`done` is a boolean"),
    };
    (value, done)
}

fn two_yield_generator(agent: &mut Agent) -> nova_vm::generator::Generator {
    // Argument-binding prologue yields once; the body then yields 11,
    // yields 22, and returns 33.
    let f = make_function(
        agent,
        vec![
            Instruction::PushUndefined,
            Instruction::Yield,
            Instruction::LoadConstant(0),
            Instruction::Yield,
            Instruction::Pop,
            Instruction::LoadConstant(1),
            Instruction::Yield,
            Instruction::Pop,
            Instruction::LoadConstant(2),
            Instruction::Return,
        ],
        vec![
            Value::Integer(SmallInteger::from_i64(11)),
            Value::Integer(SmallInteger::from_i64(22)),
            Value::Integer(SmallInteger::from_i64(33)),
        ],
        0,
        true,
    );
    match evaluate_generator_body(agent, f, ArgumentsList::new()).unwrap() {
        Value::Generator(g) => g,
        _ => panic!("a generator body evaluates to a generator object"),
    }
}

/// `next()` on a generator that has not started runs the body to the first
/// yield; `next()` again resumes after it; `return(x)` on a completed
/// generator answers `{ value: x, done: true }` without re-entering.
#[test]
fn generator_protocol() {
    let mut agent = Agent::new();
    let g = two_yield_generator(&mut agent);
    assert!(matches!(
        agent.heap.generators.get(g).generator_state,
        Some(GeneratorState::SuspendedStart(_))
    ));
    let first = generator_next(&mut agent, g, Value::Undefined).unwrap();
    assert_eq!(
        iter_result(&agent, first),
        (Value::Integer(SmallInteger::from_i64(11)), false)
    );
    assert!(matches!(
        agent.heap.generators.get(g).generator_state,
        Some(GeneratorState::SuspendedYield(_))
    ));
    let second = generator_next(&mut agent, g, Value::Undefined).unwrap();
    assert_eq!(
        iter_result(&agent, second),
        (Value::Integer(SmallInteger::from_i64(22)), false)
    );
    let third = generator_next(&mut agent, g, Value::Undefined).unwrap();
    assert_eq!(
        iter_result(&agent, third),
        (Value::Integer(SmallInteger::from_i64(33)), true)
    );
    assert!(matches!(
        agent.heap.generators.get(g).generator_state,
        Some(GeneratorState::Completed)
    ));
    // Completed: next answers `{ undefined, done: true }`, return echoes its
    // value without running the body.
    let after = generator_next(&mut agent, g, Value::Undefined).unwrap();
    assert_eq!(iter_result(&agent, after), (Value::Undefined, true));
    let returned =
        generator_return(&mut agent, g, Value::Integer(SmallInteger::from_i64(7))).unwrap();
    assert_eq!(
        iter_result(&agent, returned),
        (Value::Integer(SmallInteger::from_i64(7)), true)
    );
}

/// `return(x)` on a suspended generator completes it at once.
#[test]
fn generator_return_completes_a_suspended_generator() {
    let mut agent = Agent::new();
    let g = two_yield_generator(&mut agent);
    let r = generator_return(&mut agent, g, Value::Null).unwrap();
    assert_eq!(iter_result(&agent, r), (Value::Null, true));
    assert!(matches!(
        agent.heap.generators.get(g).generator_state,
        Some(GeneratorState::Completed)
    ));
}

/// Throwing into a generator completes it and the exception comes back out.
#[test]
fn generator_throw_propagates() {
    let mut agent = Agent::new();
    let g = two_yield_generator(&mut agent);
    let boom = nova_vm::error::JsError::new(Value::Boolean(true));
    let r = generator_throw(&mut agent, g, boom);
    assert_eq!(r.unwrap_err().value(), Value::Boolean(true));
    assert!(matches!(
        agent.heap.generators.get(g).generator_state,
        Some(GeneratorState::Completed)
    ));
}

/// Re-entering a running generator is a `TypeError`-class failure.
#[test]
fn generator_reentry_is_rejected() {
    let mut agent = Agent::new();
    let g = two_yield_generator(&mut agent);
    {
        let record = agent.heap.generators.get_mut(g);
        record.generator_state = Some(GeneratorState::Executing);
    }
    let r = generator_next(&mut agent, g, Value::Undefined);
    let err = r.unwrap_err();
    match err.value() {
        Value::Error(e) => assert!(matches!(
            agent.heap.errors.get(e).kind,
            nova_vm::error::ExceptionType::TypeError
        )),
        _ => panic!("expected an error value"),
    }
    // The state is untouched: still executing.
    assert!(matches!(
        agent.heap.generators.get(g).generator_state,
        Some(GeneratorState::Executing)
    ));
}

/// A plain function body runs to completion, and its compiled form is cached
/// on first execution and reused after.
#[test]
fn function_body_compiles_once() {
    let mut agent = Agent::new();
    let f = make_function(
        &mut agent,
        vec![Instruction::LoadConstant(0), Instruction::Return],
        vec![Value::Integer(SmallInteger::from_i64(99))],
        0,
        false,
    );
    assert_eq!(agent.heap.executables.len(), 0);
    let r = evaluate_function_body(&mut agent, f, ArgumentsList::new()).unwrap();
    assert_eq!(r, Value::Integer(SmallInteger::from_i64(99)));
    assert_eq!(agent.heap.executables.len(), 1);
    let again = evaluate_function_body(&mut agent, f, ArgumentsList::new()).unwrap();
    assert_eq!(again, Value::Integer(SmallInteger::from_i64(99)));
    // Compile once, reuse after: no second executable.
    assert_eq!(agent.heap.executables.len(), 1);
}

/// Arguments land in the leading local slots; missing ones read undefined.
#[test]
fn arguments_bind_to_locals() {
    let mut agent = Agent::new();
    let f = make_function(
        &mut agent,
        vec![Instruction::LoadLocal(1), Instruction::Return],
        vec![],
        2,
        false,
    );
    let mut args = ArgumentsList::new();
    args.values.push(Value::Boolean(false));
    args.values.push(Value::Integer(SmallInteger::from_i64(5)));
    let r = evaluate_function_body(&mut agent, f, args).unwrap();
    assert_eq!(r, Value::Integer(SmallInteger::from_i64(5)));
    let f2 = make_function(
        &mut agent,
        vec![Instruction::LoadLocal(1), Instruction::Return],
        vec![],
        2,
        false,
    );
    let r = evaluate_function_body(&mut agent, f2, ArgumentsList::new()).unwrap();
    assert_eq!(r, Value::Undefined);
}

/// A thrown completion surfaces as the thrown value.
#[test]
fn function_body_throws() {
    let mut agent = Agent::new();
    let f = make_function(
        &mut agent,
        vec![Instruction::LoadConstant(0), Instruction::Throw],
        vec![Value::Integer(SmallInteger::from_i64(-1))],
        0,
        false,
    );
    let err = evaluate_function_body(&mut agent, f, ArgumentsList::new()).unwrap_err();
    assert_eq!(err.value(), Value::Integer(SmallInteger::from_i64(-1)));
}
