//! Error records and the two error classes of the runtime.
//!
//! Language-level exceptions are ordinary values carried in a [`JsError`];
//! invariant violations are not represented here at all — verified code rules
//! them out instead of catching them.

use vstd::prelude::*;

verus! {

use crate::indexes::BaseIndex;
use crate::object::OrdinaryObject;
use crate::string::JsString;
use crate::value::Value;

/// Which intrinsic error constructor an exception belongs to.
#[derive(Debug, Clone, Copy, PartialEq, Eq, Structural)]
pub enum ExceptionType {
    Error,
    EvalError,
    RangeError,
    ReferenceError,
    SyntaxError,
    TypeError,
    UriError,
}

/// A heap-resident error record.
#[derive(Debug, Clone, Copy)]
pub struct ErrorHeapData {
    /// Backing ordinary object, created lazily.
    pub object_index: Option<OrdinaryObject>,
    pub kind: ExceptionType,
    pub message: Option<JsString>,
    pub cause: Option<Value>,
}

impl ErrorHeapData {
    /// A fresh error record with no backing object.
    pub fn new(kind: ExceptionType, message: Option<JsString>, cause: Option<Value>) -> (r: Self)
        ensures
            r.object_index is None,
            r.kind == kind,
            r.message == message,
            r.cause == cause,
    {
        ErrorHeapData { object_index: None, kind, message, cause }
    }
}

/// Tag of the error heap kind.
#[derive(Debug, Clone, Copy, Hash)]
pub struct ErrorTag;

/// Handle into the error arena.
pub type Error = BaseIndex<ErrorTag>;

/// A language-level exception: the thrown value.
///
/// Always recoverable by language-level code; never used for invariant
/// violations.
#[derive(Debug, Clone, Copy)]
pub struct JsError {
    value: Value,
}

impl JsError {
    /// Wrap a thrown value.
    pub fn new(value: Value) -> (r: Self)
        ensures
            r.spec_value() == value,
    {
        JsError { value }
    }

    /// The thrown value.
    pub closed spec fn spec_value(self) -> Value {
        self.value
    }

    /// The thrown value.
    pub fn value(self) -> (r: Value)
        ensures
            r == self.spec_value(),
    {
        self.value
    }
}

} // verus!
