//! Function records: bound functions, built-in functions, and functions
//! compiled from source.

use vstd::prelude::*;

verus! {

use crate::ast::{FormalParameters, FunctionBody};
use crate::indexes::BaseIndex;
use crate::object::{Object, OrdinaryObject};
use crate::string::JsString;
use crate::value::Value;
use crate::vm::Executable;

/// A function produced by `bind`: a target plus a fixed receiver and leading
/// arguments.
#[derive(Debug)]
pub struct BoundFunctionHeapData {
    /// Backing ordinary object, created lazily.
    pub object_index: Option<OrdinaryObject>,
    pub name: Option<JsString>,
    pub bound_target_function: Object,
    pub bound_this: Value,
    pub bound_arguments: Vec<Value>,
}

/// Which native behaviour a built-in function runs. Dispatch across the
/// closed set is a compile-time-checked match, not a function pointer.
#[derive(Debug, Clone, Copy, PartialEq, Eq, Structural)]
pub enum BuiltinBehaviour {
    SymbolPrototypeGetDescription,
    SymbolPrototypeToString,
    SymbolPrototypeValueOf,
    SymbolPrototypeToPrimitive,
    BigIntPrototypeToLocaleString,
    BigIntPrototypeToString,
    BigIntPrototypeValueOf,
}

/// A built-in (native) function record.
#[derive(Debug, Clone, Copy)]
pub struct BuiltinFunctionHeapData {
    /// Backing ordinary object, created lazily.
    pub object_index: Option<OrdinaryObject>,
    pub name: Option<JsString>,
    pub length: u8,
    pub behaviour: BuiltinBehaviour,
}

/// A function compiled from source text.
#[derive(Debug)]
pub struct ECMAScriptFunctionHeapData {
    /// Backing ordinary object, created lazily.
    pub object_index: Option<OrdinaryObject>,
    pub name: Option<JsString>,
    pub length: u8,
    pub formal_parameters: FormalParameters,
    /// The body as the compiler collaborator delivered it.
    pub ecmascript_code: FunctionBody,
    /// Cache of the heap-resident compiled form: filled on first execution,
    /// reused afterwards.
    pub compiled_bytecode: Option<Executable>,
    pub is_strict: bool,
    pub is_async: bool,
    pub is_generator: bool,
    pub is_concise_arrow_function: bool,
    pub lexical_this: bool,
    /// May this function be called as a constructor?
    pub is_constructor: bool,
}

/// Tag of the bound-function heap kind.
#[derive(Debug, Clone, Copy, Hash)]
pub struct BoundFunctionTag;

/// Handle into the bound-function arena.
pub type BoundFunction = BaseIndex<BoundFunctionTag>;

/// Tag of the built-in-function heap kind.
#[derive(Debug, Clone, Copy, Hash)]
pub struct BuiltinFunctionTag;

/// Handle into the built-in-function arena.
pub type BuiltinFunction = BaseIndex<BuiltinFunctionTag>;

/// Tag of the compiled-function heap kind.
#[derive(Debug, Clone, Copy, Hash)]
pub struct ECMAScriptFunctionTag;

/// Handle into the compiled-function arena.
pub type ECMAScriptFunction = BaseIndex<ECMAScriptFunctionTag>;

/// The argument values of one call.
#[derive(Debug)]
pub struct ArgumentsList {
    pub values: Vec<Value>,
}

impl ArgumentsList {
    /// An empty argument list.
    pub fn new() -> (r: Self)
        ensures
            r.values@.len() == 0,
    {
        ArgumentsList { values: Vec::new() }
    }

    /// The argument at `index`, or `undefined` past the end.
    pub fn get(&self, index: usize) -> (r: Value)
        ensures
            r == if index < self.values@.len() {
                self.values@[index as int]
            } else {
                Value::Undefined
            },
    {
        if index < self.values.len() {
            self.values[index]
        } else {
            Value::Undefined
        }
    }
}

} // verus!
