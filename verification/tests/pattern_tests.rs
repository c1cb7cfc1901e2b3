//! Binding patterns, function instantiation, and the raw engine.

use nova_vm::agent::Agent;
use nova_vm::ast::{
    ArrayPattern, AstFunction, BindingPattern, BindingProperty, FormalParameters, FunctionBody,
    ObjectPattern,
};
use nova_vm::function_definitions::{
    instantiate_ordinary_function_expression, instantiate_ordinary_function_object,
};
use nova_vm::small_integer::SmallInteger;
use nova_vm::value::Value;
use nova_vm::vm::{ExecutableHeapData, ExecutionResult, Instruction, Vm};

#[test]
fn contains_expression_on_patterns() {
    assert!(!BindingPattern::BindingIdentifier.contains_expression());
    assert!(BindingPattern::AssignmentPattern.contains_expression());
    // `{ a, [k]: b }` contains an expression through the computed key.
    let object = BindingPattern::ObjectPattern(Box::new(ObjectPattern {
        properties: vec![
            BindingProperty {
                computed: false,
                value: BindingPattern::BindingIdentifier,
            },
            BindingProperty {
                computed: true,
                value: BindingPattern::BindingIdentifier,
            },
        ],
        rest: false,
    }));
    assert!(object.contains_expression());
    // `[ , a, ...r ]` contains none.
    let array = BindingPattern::ArrayPattern(Box::new(ArrayPattern {
        elements: vec![None, Some(BindingPattern::BindingIdentifier)],
        rest: Some(Box::new(BindingPattern::BindingIdentifier)),
    }));
    assert!(!array.contains_expression());
    // A default inside a nested array pattern is found.
    let nested = BindingPattern::ArrayPattern(Box::new(ArrayPattern {
        elements: vec![Some(BindingPattern::AssignmentPattern)],
        rest: None,
    }));
    assert!(nested.contains_expression());
}

fn plain_body() -> FunctionBody {
    FunctionBody {
        instructions: vec![Instruction::ReturnUndefined],
        constants: vec![],
        local_count: 0,
    }
}

#[test]
fn instantiate_function_object_names_and_marks_constructors() {
    let mut agent = Agent::new();
    let named = AstFunction {
        id: Some(b"answer".to_vec()),
        params: FormalParameters { items: vec![] },
        body: plain_body(),
        is_async: false,
        is_generator: false,
    };
    let f = instantiate_ordinary_function_object(&mut agent, named);
    let record = agent.heap.ecmascript_functions.get(f);
    assert!(record.is_constructor);
    match record.name.clone().unwrap() {
        nova_vm::string::JsString::Small(s) => assert_eq!(s.to_vec(), b"answer".to_vec()),
        _ => panic!("a short name stays inline"),
    }
    // Anonymous declarations are named `default`; generators are not
    // constructors.
    let anonymous = AstFunction {
        id: None,
        params: FormalParameters { items: vec![] },
        body: plain_body(),
        is_async: false,
        is_generator: true,
    };
    let g = instantiate_ordinary_function_object(&mut agent, anonymous);
    let record = agent.heap.ecmascript_functions.get(g);
    assert!(!record.is_constructor);
    assert!(record.is_generator);
    match record.name.clone().unwrap() {
        nova_vm::string::JsString::Heap(h) => {
            assert_eq!(agent.heap.strings.get(h).bytes, b"default".to_vec())
        }
        nova_vm::string::JsString::Small(s) => assert_eq!(s.to_vec(), b"default".to_vec()),
    }
}

#[test]
fn instantiate_function_expression_takes_the_callers_name() {
    let mut agent = Agent::new();
    let expression = AstFunction {
        id: None,
        params: FormalParameters { items: vec![] },
        body: plain_body(),
        is_async: true,
        is_generator: false,
    };
    let name = nova_vm::string::JsString::Small(
        nova_vm::small_string::SmallString::from_bytes(b"later"),
    );
    let f = instantiate_ordinary_function_expression(&mut agent, expression, Some(name));
    let record = agent.heap.ecmascript_functions.get(f);
    assert!(record.is_async);
    assert!(!record.is_constructor);
    assert_eq!(record.name, Some(name));
}

#[test]
fn engine_outcomes() {
    let exe = ExecutableHeapData {
        instructions: vec![
            Instruction::LoadConstant(0),
            Instruction::LoadConstant(1),
            Instruction::StoreLocal(0),
            Instruction::Pop,
            Instruction::LoadLocal(0),
            Instruction::Return,
        ],
        constants: vec![
            Value::Integer(SmallInteger::from_i64(1)),
            Value::Integer(SmallInteger::from_i64(2)),
        ],
        local_count: 1,
    };
    match Vm::execute(&exe, &[]) {
        ExecutionResult::Return(v) => {
            assert_eq!(v, Value::Integer(SmallInteger::from_i64(2)))
        }
        _ => panic!("a straight-line body returns"),
    }
    // Suspension at a yield hands back a resumable snapshot.
    let exe = ExecutableHeapData {
        instructions: vec![
            Instruction::LoadConstant(0),
            Instruction::Yield,
            Instruction::Return,
        ],
        constants: vec![Value::Integer(SmallInteger::from_i64(10))],
        local_count: 0,
    };
    let (vm, yielded) = match Vm::execute(&exe, &[]) {
        ExecutionResult::Yield { vm, yielded_value } => (vm, yielded_value),
        _ => panic!("the body suspends at its yield"),
    };
    assert_eq!(yielded, Value::Integer(SmallInteger::from_i64(10)));
    assert!(vm.is_gc_safe());
    match vm.resume(&exe, Value::Boolean(true)) {
        ExecutionResult::Return(v) => assert_eq!(v, Value::Boolean(true)),
        _ => panic!("resumption injects the value at the suspension point"),
    }
    // An injected exception propagates out: no handler ranges exist.
    let exe = ExecutableHeapData {
        instructions: vec![Instruction::PushUndefined, Instruction::Await],
        constants: vec![],
        local_count: 0,
    };
    let vm = match Vm::execute(&exe, &[]) {
        ExecutionResult::Await { vm, .. } => vm,
        _ => panic!("the body suspends at its await"),
    };
    match vm.resume_throw(&exe, Value::Null) {
        ExecutionResult::Throw(e) => assert_eq!(e.value(), Value::Null),
        _ => panic!("the injected exception comes back out"),
    }
    // Running past the end completes with undefined; an operand underflow is
    // an abrupt completion, not a crash.
    let exe = ExecutableHeapData {
        instructions: vec![],
        constants: vec![],
        local_count: 0,
    };
    assert!(matches!(
        Vm::execute(&exe, &[]),
        ExecutionResult::Return(Value::Undefined)
    ));
    let exe = ExecutableHeapData {
        instructions: vec![Instruction::Pop],
        constants: vec![],
        local_count: 0,
    };
    assert!(matches!(Vm::execute(&exe, &[]), ExecutionResult::Throw(_)));
}
