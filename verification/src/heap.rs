//! The heap: one arena per object kind.
//!
//! Arenas are type-segregated, so a handle's kind is statically known and a
//! handle can never be read at the wrong kind. All heap-resident data of the
//! runtime lives here.

use vstd::prelude::*;

verus! {

use crate::arena::Arena;
use crate::array::ArrayHeapData;
use crate::async_generator::AsyncGeneratorHeapData;
use crate::bigint::BigIntHeapData;
use crate::date::DateHeapData;
use crate::error::ErrorHeapData;
use crate::function::{
    BoundFunctionHeapData, BuiltinFunctionHeapData, ECMAScriptFunctionHeapData,
};
use crate::generator::GeneratorHeapData;
use crate::number::NumberHeapData;
use crate::object::ObjectHeapData;
use crate::primitive_object::PrimitiveObjectHeapData;
use crate::promise::PromiseHeapData;
use crate::regexp::RegExpHeapData;
use crate::set_object::SetHeapData;
use crate::string::StringHeapData;
use crate::symbol::SymbolHeapData;
use crate::vm::ExecutableHeapData;

/// Every arena of the runtime, one per heap kind.
#[derive(Debug)]
pub struct Heap {
    pub arrays: Arena<crate::array::ArrayTag, ArrayHeapData>,
    pub async_generators: Arena<crate::async_generator::AsyncGeneratorTag, AsyncGeneratorHeapData>,
    pub bigints: Arena<crate::bigint::BigIntTag, BigIntHeapData>,
    pub bound_functions: Arena<crate::function::BoundFunctionTag, BoundFunctionHeapData>,
    pub builtin_functions: Arena<crate::function::BuiltinFunctionTag, BuiltinFunctionHeapData>,
    pub dates: Arena<crate::date::DateTag, DateHeapData<i64>>,
    pub ecmascript_functions: Arena<crate::function::ECMAScriptFunctionTag, ECMAScriptFunctionHeapData>,
    pub errors: Arena<crate::error::ErrorTag, ErrorHeapData>,
    pub executables: Arena<crate::vm::ExecutableTag, ExecutableHeapData>,
    pub generators: Arena<crate::generator::GeneratorTag, GeneratorHeapData>,
    pub numbers: Arena<crate::number::NumberTag, NumberHeapData>,
    pub objects: Arena<crate::object::ObjectTag, ObjectHeapData>,
    pub primitive_objects: Arena<crate::primitive_object::PrimitiveObjectTag, PrimitiveObjectHeapData>,
    pub promises: Arena<crate::promise::PromiseTag, PromiseHeapData>,
    pub regexps: Arena<crate::regexp::RegExpTag, RegExpHeapData>,
    pub sets: Arena<crate::set_object::SetTag, SetHeapData>,
    pub strings: Arena<crate::string::StringTag, StringHeapData>,
    pub symbols: Arena<crate::symbol::SymbolTag, SymbolHeapData>,
}

impl Heap {
    /// A heap with every arena empty.
    pub fn new() -> (r: Self)
        ensures
            r.arrays@.len() == 0,
            r.async_generators@.len() == 0,
            r.bigints@.len() == 0,
            r.bound_functions@.len() == 0,
            r.builtin_functions@.len() == 0,
            r.dates@.len() == 0,
            r.ecmascript_functions@.len() == 0,
            r.errors@.len() == 0,
            r.executables@.len() == 0,
            r.generators@.len() == 0,
            r.numbers@.len() == 0,
            r.objects@.len() == 0,
            r.primitive_objects@.len() == 0,
            r.promises@.len() == 0,
            r.regexps@.len() == 0,
            r.sets@.len() == 0,
            r.strings@.len() == 0,
            r.symbols@.len() == 0,
    {
        Heap {
            arrays: Arena::new(),
            async_generators: Arena::new(),
            bigints: Arena::new(),
            bound_functions: Arena::new(),
            builtin_functions: Arena::new(),
            dates: Arena::new(),
            ecmascript_functions: Arena::new(),
            errors: Arena::new(),
            executables: Arena::new(),
            generators: Arena::new(),
            numbers: Arena::new(),
            objects: Arena::new(),
            primitive_objects: Arena::new(),
            promises: Arena::new(),
            regexps: Arena::new(),
            sets: Arena::new(),
            strings: Arena::new(),
            symbols: Arena::new(),
        }
    }

    /// Create an async-generator record and hand back its object handle.
    pub fn create(&mut self, data: AsyncGeneratorHeapData) -> (r:
        crate::async_generator::AsyncGenerator)
        requires
            old(self).async_generators@.len() < u32::MAX,
        ensures
            final(self).async_generators@ == old(self).async_generators@.push(Some(data)),
            r.0.index() == old(self).async_generators@.len(),
            final(self).async_generators.valid(r.0),
            final(self).async_generators.spec_get(r.0) == data,
            *final(self) == (Heap {
                async_generators: final(self).async_generators,
                ..*old(self)
            }),
    {
        let handle = self.async_generators.create(data);
        crate::async_generator::AsyncGenerator(handle)
    }
}

} // verus!
