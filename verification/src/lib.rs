//! Execution core of a small ECMAScript-style runtime: a heap-indexed object
//! model with typed, word-sized handles, a tracing mark/sweep garbage
//! collector with compaction, a suspendable bytecode execution engine, and
//! generator / async-generator state machines built as explicit resumable
//! state records.

pub mod agent;
pub mod arena;
pub mod array;
pub mod array_operations;
pub mod ast;
pub mod async_generator;
pub mod bigint;
pub mod bigint_prototype;
pub mod compaction;
pub mod date;
pub mod error;
pub mod function;
pub mod gc;
pub mod function_definitions;
pub mod generator;
pub mod hash;
pub mod heap;
pub mod indexes;
pub mod number;
pub mod object;
pub mod primitive_object;
pub mod promise;
pub mod regexp;
pub mod rootable;
pub mod set_object;
pub mod small_bigint;
pub mod small_f64;
pub mod small_integer;
pub mod small_string;
pub mod string;
pub mod string_conversion;
pub mod symbol;
pub mod symbol_prototype;
pub mod type_conversion;
pub mod value;
pub mod vm;
