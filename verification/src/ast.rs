//! The slice of the syntax tree this core reads.
//!
//! Parsing is a collaborator's concern: the runtime only inspects the shape
//! of binding patterns (to decide whether parameter binding may evaluate
//! expressions) and carries a compiled body alongside. These types hold that
//! shape as plain data.

use vstd::prelude::*;

verus! {

use crate::vm::Instruction;
use crate::value::Value;

/// A binding pattern: what may stand on the left of a parameter or
/// destructuring binding.
#[derive(Debug)]
pub enum BindingPattern {
    /// A plain identifier.
    BindingIdentifier,
    /// `{ a, b: pattern, ... }`
    ObjectPattern(Box<ObjectPattern>),
    /// `[ a, , pattern, ...rest ]`
    ArrayPattern(Box<ArrayPattern>),
    /// `pattern = default` — always contains an expression.
    AssignmentPattern,
}

/// An object destructuring pattern.
#[derive(Debug)]
pub struct ObjectPattern {
    pub properties: Vec<BindingProperty>,
    /// A rest element binds a plain identifier; it never contains an
    /// expression of its own.
    pub rest: bool,
}

/// One `key: value` member of an object pattern.
#[derive(Debug)]
pub struct BindingProperty {
    /// Is the key a computed expression (`[expr]: pattern`)?
    pub computed: bool,
    pub value: BindingPattern,
}

/// An array destructuring pattern.
#[derive(Debug)]
pub struct ArrayPattern {
    pub elements: Vec<Option<BindingPattern>>,
    pub rest: Option<Box<BindingPattern>>,
}

/// Does binding this pattern evaluate an expression?
pub open spec fn spec_pattern_contains_expression(p: BindingPattern) -> bool
    decreases p,
{
    match p {
        BindingPattern::BindingIdentifier => false,
        BindingPattern::ObjectPattern(pattern) => spec_object_pattern_contains_expression(*pattern),
        BindingPattern::ArrayPattern(pattern) => spec_array_pattern_contains_expression(*pattern),
        BindingPattern::AssignmentPattern => true,
    }
}

/// Does binding this object pattern evaluate an expression?
pub open spec fn spec_object_pattern_contains_expression(p: ObjectPattern) -> bool
    decreases p,
{
    exists|i: int|
        0 <= i < p.properties@.len() && (p.properties@[i].computed
            || spec_pattern_contains_expression(p.properties@[i].value))
}

/// Does binding this array pattern evaluate an expression?
pub open spec fn spec_array_pattern_contains_expression(p: ArrayPattern) -> bool
    decreases p,
{
    ||| exists|i: int|
        0 <= i < p.elements@.len() && (#[trigger] p.elements@[i] matches Some(e)
            && spec_pattern_contains_expression(e))
    ||| (p.rest matches Some(rest) && spec_pattern_contains_expression(*rest))
}

impl BindingPattern {
    /// Does binding this pattern evaluate an expression?
    pub fn contains_expression(&self) -> (r: bool)
        ensures
            r == spec_pattern_contains_expression(*self),
        decreases *self,
    {
        match self {
            BindingPattern::BindingIdentifier => false,
            BindingPattern::ObjectPattern(pattern) => pattern.contains_expression(),
            BindingPattern::ArrayPattern(pattern) => pattern.contains_expression(),
            BindingPattern::AssignmentPattern => true,
        }
    }
}

impl ObjectPattern {
    /// Does binding this object pattern evaluate an expression?
    pub fn contains_expression(&self) -> (r: bool)
        ensures
            r == spec_object_pattern_contains_expression(*self),
        decreases *self,
    {
        let n = self.properties.len();
        let mut i: usize = 0;
        while i < n
            invariant
                n == self.properties@.len(),
                0 <= i <= n,
                forall|j: int|
                    0 <= j < i ==> !(self.properties@[j].computed
                        || spec_pattern_contains_expression(self.properties@[j].value)),
            decreases n - i,
        {
            let property = &self.properties[i];
            if property.computed || property.value.contains_expression() {
                return true;
            }
            i += 1;
        }
        false
    }
}

impl ArrayPattern {
    /// Does binding this array pattern evaluate an expression?
    pub fn contains_expression(&self) -> (r: bool)
        ensures
            r == spec_array_pattern_contains_expression(*self),
        decreases *self,
    {
        let n = self.elements.len();
        let mut i: usize = 0;
        while i < n
            invariant
                n == self.elements@.len(),
                0 <= i <= n,
                forall|j: int|
                    0 <= j < i ==> !(#[trigger] self.elements@[j] matches Some(e)
                        && spec_pattern_contains_expression(e)),
            decreases n - i,
        {
            if let Some(pattern) = &self.elements[i] {
                if pattern.contains_expression() {
                    return true;
                }
            }
            i += 1;
        }
        if let Some(rest) = &self.rest {
            rest.contains_expression()
        } else {
            false
        }
    }
}

/// The formal parameter list of one function.
#[derive(Debug)]
pub struct FormalParameters {
    pub items: Vec<BindingPattern>,
}

/// A function body, already compiled by the collaborating compiler: the
/// instruction sequence and its constant pool, ready to be placed in the
/// executable arena on first call.
#[derive(Debug)]
pub struct FunctionBody {
    pub instructions: Vec<Instruction>,
    pub constants: Vec<Value>,
    /// How many local slots frames of this body use.
    pub local_count: u32,
}

impl Clone for FunctionBody {
    /// A copy holding the same instructions and constants.
    fn clone(&self) -> (r: Self)
        ensures
            r.instructions@ == self.instructions@,
            r.constants@ == self.constants@,
            r.local_count == self.local_count,
    {
        let instructions = self.instructions.clone();
        let constants = self.constants.clone();
        proof {
            assert(instructions@ =~= self.instructions@);
            assert(constants@ =~= self.constants@);
        }
        FunctionBody { instructions, constants, local_count: self.local_count }
    }
}

/// One function as the parser hands it over: its binding shape, its compiled
/// body, and the syntactic facts the runtime reads off the declaration.
#[derive(Debug)]
pub struct AstFunction {
    /// The declared name, as content bytes; empty when anonymous.
    pub id: Option<Vec<u8>>,
    pub params: FormalParameters,
    pub body: FunctionBody,
    pub is_async: bool,
    pub is_generator: bool,
}

} // verus!
