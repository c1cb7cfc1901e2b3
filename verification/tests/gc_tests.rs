//! The collector: content-preserving compaction, weak clearing, cycles, and
//! mark idempotence.

use nova_vm::agent::Agent;
use nova_vm::compaction::collect_garbage;
use nova_vm::error::{ErrorHeapData, ExceptionType};
use nova_vm::gc::{build_root_queues, mark};
use nova_vm::object::{Object, ObjectEntry, ObjectHeapData, PropertyKey};
use nova_vm::small_integer::SmallInteger;
use nova_vm::small_string::SmallString;
use nova_vm::function::{ArgumentsList, ECMAScriptFunctionHeapData};
use nova_vm::string::{JsString, StringHeapData};
use nova_vm::value::Value;

/// A live record keeps its content and its slot is renumbered past the
/// collected garbage before it.
#[test]
fn collection_preserves_reachable_records_and_renumbers() {
    let mut agent = Agent::new();
    // Garbage first, so the survivor's slot must shift down.
    agent.heap.strings.create(StringHeapData {
        bytes: b"left behind".to_vec(),
    });
    agent.heap.strings.create(StringHeapData {
        bytes: b"also left behind".to_vec(),
    });
    let message = agent.heap.strings.create(StringHeapData {
        bytes: b"kept message".to_vec(),
    });
    let error = agent.heap.errors.create(ErrorHeapData::new(
        ExceptionType::TypeError,
        Some(JsString::Heap(message)),
        None,
    ));
    agent.globals.push(Value::Error(error));
    let strings_before = agent.heap.strings.len();
    let c = collect_garbage(&mut agent);
    // Two string records were unreached and dropped.
    assert_eq!(agent.heap.strings.len(), strings_before - 2);
    // The rewritten strong root still reaches the same logical record.
    let rewritten = match agent.globals[0] {
        Value::Error(e) => e,
        _ => panic!("the strong root must stay an error"),
    };
    assert_eq!(rewritten.into_index(), 0);
    let record = agent.heap.errors.get(rewritten);
    assert!(matches!(record.kind, ExceptionType::TypeError));
    let new_message = match record.message {
        Some(JsString::Heap(h)) => h,
        _ => panic!("the message survives as a heap string"),
    };
    // Renumbered consistently with the per-kind compaction table: two slots
    // before it were removed.
    assert_eq!(new_message.into_index(), message.into_index() - 2);
    assert_eq!(c.strings[message.into_index()], 2);
    assert_eq!(
        agent.heap.strings.get(new_message).bytes,
        b"kept message".to_vec()
    );
}

/// A weak slot whose target is unreached becomes the no-handle sentinel; one
/// whose target survives is rewritten, not cleared.
#[test]
fn weak_slots_clear_exactly_when_unreached() {
    let mut agent = Agent::new();
    agent.heap.strings.create(StringHeapData {
        bytes: b"garbage ahead".to_vec(),
    });
    let dead = agent.heap.strings.create(StringHeapData {
        bytes: b"dropped".to_vec(),
    });
    let kept = agent.heap.strings.create(StringHeapData {
        bytes: b"survives".to_vec(),
    });
    agent.globals.push(Value::String(kept));
    agent.weak_refs.push(Some(Value::String(dead)));
    agent.weak_refs.push(Some(Value::String(kept)));
    agent.weak_refs.push(Some(Value::Boolean(true)));
    agent.weak_refs.push(None);
    collect_garbage(&mut agent);
    assert_eq!(agent.weak_refs[0], None);
    match agent.weak_refs[1] {
        Some(Value::String(h)) => {
            assert_eq!(agent.heap.strings.get(h).bytes, b"survives".to_vec());
        }
        _ => panic!("a reachable weak target survives"),
    }
    // A stack-only weak value is untouched; an empty slot stays empty.
    assert_eq!(agent.weak_refs[2], Some(Value::Boolean(true)));
    assert_eq!(agent.weak_refs[3], None);
}

/// Records in a cycle survive together when rooted and die together when
/// not: the collector follows edges, not counts.
#[test]
fn cycles_are_collected_when_unreached() {
    let mut agent = Agent::new();
    let key = PropertyKey::SmallString(SmallString::from_bytes(b"peer"));
    // A two-object cycle, rooted.
    let first = agent
        .heap
        .objects
        .create(ObjectHeapData::new_with_prototype(None));
    let second = agent
        .heap
        .objects
        .create(ObjectHeapData::new_with_prototype(None));
    {
        let record = agent.heap.objects.get_mut(first);
        record.set_entry(ObjectEntry::new(key, Value::Object(second)));
    }
    {
        let record = agent.heap.objects.get_mut(second);
        record.set_entry(ObjectEntry::new(key, Value::Object(first)));
    }
    // An unrooted self-cycle.
    let loner = agent
        .heap
        .objects
        .create(ObjectHeapData::new_with_prototype(None));
    {
        let record = agent.heap.objects.get_mut(loner);
        record.set_entry(ObjectEntry::new(key, Value::Object(loner)));
    }
    agent.globals.push(Value::Object(first));
    let before = agent.heap.objects.len();
    collect_garbage(&mut agent);
    // The rooted pair survives; the self-cycle is gone.
    assert_eq!(agent.heap.objects.len(), before - 1);
    let first_now = match agent.globals[0] {
        Value::Object(o) => o,
        _ => panic!("the root stays an object"),
    };
    let second_now = match agent.heap.objects.get(first_now).get(key) {
        Some(Value::Object(o)) => o,
        _ => panic!("the peer edge survives"),
    };
    match agent.heap.objects.get(second_now).get(key) {
        Some(Value::Object(back)) => {
            assert_eq!(back.into_index(), first_now.into_index());
        }
        _ => panic!("the cycle closes again after compaction"),
    }
}

/// Running the mark phase twice without an intervening mutation marks the
/// same set.
#[test]
fn mark_twice_is_identical() {
    let mut agent = Agent::new();
    let kept = agent.heap.strings.create(StringHeapData {
        bytes: b"rooted".to_vec(),
    });
    agent.heap.strings.create(StringHeapData {
        bytes: b"stray".to_vec(),
    });
    agent.globals.push(Value::String(kept));
    agent
        .globals
        .push(Value::Integer(SmallInteger::from_i64(5)));
    let first = mark(&agent.heap, build_root_queues(&agent));
    let second = mark(&agent.heap, build_root_queues(&agent));
    assert_eq!(first.strings, second.strings);
    assert_eq!(first.objects, second.objects);
    assert_eq!(first.errors, second.errors);
    assert_eq!(first.symbols, second.symbols);
    assert_eq!(first.arrays, second.arrays);
    // The rooted string is marked, the stray one is not.
    assert_eq!(first.strings, vec![true, false]);
}

/// The intrinsic prototype objects are roots: they survive every pass.
#[test]
fn intrinsics_survive_collection() {
    let mut agent = Agent::new();
    let before = agent.heap.objects.len();
    collect_garbage(&mut agent);
    assert_eq!(agent.heap.objects.len(), before);
    let proto = agent.realm.intrinsics.object_prototype;
    assert_eq!(proto.into_index(), 0);
}

/// Everything a suspended generator snapshot embeds survives collection.
#[test]
fn suspended_state_roots_its_values() {
    let mut agent = Agent::new();
    let kept = agent.heap.strings.create(StringHeapData {
        bytes: b"held by a parked frame".to_vec(),
    });
    let body = nova_vm::ast::FunctionBody {
        instructions: vec![
            nova_vm::vm::Instruction::PushUndefined,
            nova_vm::vm::Instruction::Yield,
            nova_vm::vm::Instruction::LoadLocal(0),
            nova_vm::vm::Instruction::Return,
        ],
        constants: vec![],
        local_count: 1,
    };
    let f = agent
        .heap
        .ecmascript_functions
        .create(ECMAScriptFunctionHeapData {
            object_index: None,
            name: None,
            length: 0,
            formal_parameters: nova_vm::ast::FormalParameters { items: vec![] },
            ecmascript_code: body,
            compiled_bytecode: None,
            is_strict: true,
            is_async: false,
            is_generator: true,
            is_concise_arrow_function: false,
            lexical_this: false,
            is_constructor: false,
        });
    let mut args = ArgumentsList::new();
    args.values.push(Value::String(kept));
    let generator_value =
        nova_vm::function_definitions::evaluate_generator_body(&mut agent, f, args).unwrap();
    agent.globals.push(generator_value);
    let strings_before = agent.heap.strings.len();
    collect_garbage(&mut agent);
    // The string lives only inside the parked frame's locals, and survives.
    assert_eq!(agent.heap.strings.len(), strings_before);
}
