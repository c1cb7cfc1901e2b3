//! The suspendable execution engine: compiled instruction sequences and the
//! stack machine that runs them.
//!
//! Execution either completes (`Return` / `Throw`) or pauses at a suspension
//! point (`Yield` / `Await`), handing back a self-contained snapshot that can
//! be parked on the heap and resumed later with an injected value or
//! exception. The meaning of every instruction is fixed by the small-step
//! relation [`spec_step`]; the interpreter is verified to realise a finite
//! number of those steps.

use vstd::prelude::*;

verus! {

use crate::error::JsError;
use crate::indexes::BaseIndex;
use crate::value::Value;

/// One bytecode instruction. Operands index the constant pool or the local
/// slots. Control only moves forward — the compiler collaborator lays bodies
/// out without backward jumps — so every execution turn terminates.
#[derive(Debug, Clone, Copy, PartialEq, Eq)]
pub enum Instruction {
    /// Push a constant-pool entry.
    LoadConstant(u32),
    /// Push a local slot's value.
    LoadLocal(u32),
    /// Pop into a local slot.
    StoreLocal(u32),
    /// Push `undefined`.
    PushUndefined,
    /// Discard the top of the stack.
    Pop,
    /// Pop a value and suspend, yielding it.
    Yield,
    /// Pop a value and suspend, awaiting it.
    Await,
    /// Pop a value and complete normally with it.
    Return,
    /// Complete normally with `undefined`.
    ReturnUndefined,
    /// Pop a value and complete abruptly with it.
    Throw,
}

/// A heap-resident compiled instruction sequence with its constant pool and
/// the number of local slots its frames use.
#[derive(Debug, Clone)]
pub struct ExecutableHeapData {
    pub instructions: Vec<Instruction>,
    pub constants: Vec<Value>,
    pub local_count: u32,
}

/// Tag of the executable heap kind.
#[derive(Debug, Clone, Copy, Hash)]
pub struct ExecutableTag;

/// Handle into the executable arena.
pub type Executable = BaseIndex<ExecutableTag>;

/// A machine state, as specification data: instruction pointer, operand
/// stack, and local bindings.
pub struct MachineState {
    pub ip: int,
    pub stack: Seq<Value>,
    pub locals: Seq<Value>,
}

/// A completed execution, as specification data.
pub enum SpecOutcome {
    Return(Value),
    Throw(Value),
    Yield(MachineState, Value),
    Await(MachineState, Value),
}

/// One small step: either the machine is done with an outcome, or it moved to
/// a next state.
pub enum SpecStep {
    Done(SpecOutcome),
    More(MachineState),
}

/// The small-step meaning of the instruction under `s.ip`.
///
/// The relation is total: running past the end of the sequence completes with
/// `undefined`, and an operand-stack underflow or out-of-range operand — a
/// state no sane compiler output reaches — completes abruptly with
/// `undefined`.
pub open spec fn spec_step(exe: ExecutableHeapData, s: MachineState) -> SpecStep {
    let code = exe.instructions@;
    if !(0 <= s.ip < code.len()) {
        SpecStep::Done(SpecOutcome::Return(Value::Undefined))
    } else {
        match code[s.ip] {
            Instruction::LoadConstant(i) => if i < exe.constants@.len() {
                SpecStep::More(
                    MachineState {
                        ip: s.ip + 1,
                        stack: s.stack.push(exe.constants@[i as int]),
                        locals: s.locals,
                    },
                )
            } else {
                SpecStep::Done(SpecOutcome::Throw(Value::Undefined))
            },
            Instruction::LoadLocal(i) => if i < s.locals.len() {
                SpecStep::More(
                    MachineState {
                        ip: s.ip + 1,
                        stack: s.stack.push(s.locals[i as int]),
                        locals: s.locals,
                    },
                )
            } else {
                SpecStep::Done(SpecOutcome::Throw(Value::Undefined))
            },
            Instruction::StoreLocal(i) => if i < s.locals.len() && s.stack.len() > 0 {
                SpecStep::More(
                    MachineState {
                        ip: s.ip + 1,
                        stack: s.stack.drop_last(),
                        locals: s.locals.update(i as int, s.stack.last()),
                    },
                )
            } else {
                SpecStep::Done(SpecOutcome::Throw(Value::Undefined))
            },
            Instruction::PushUndefined => SpecStep::More(
                MachineState { ip: s.ip + 1, stack: s.stack.push(Value::Undefined), locals: s.locals },
            ),
            Instruction::Pop => if s.stack.len() > 0 {
                SpecStep::More(
                    MachineState { ip: s.ip + 1, stack: s.stack.drop_last(), locals: s.locals },
                )
            } else {
                SpecStep::Done(SpecOutcome::Throw(Value::Undefined))
            },
            Instruction::Yield => if s.stack.len() > 0 {
                SpecStep::Done(
                    SpecOutcome::Yield(
                        MachineState { ip: s.ip + 1, stack: s.stack.drop_last(), locals: s.locals },
                        s.stack.last(),
                    ),
                )
            } else {
                SpecStep::Done(SpecOutcome::Throw(Value::Undefined))
            },
            Instruction::Await => if s.stack.len() > 0 {
                SpecStep::Done(
                    SpecOutcome::Await(
                        MachineState { ip: s.ip + 1, stack: s.stack.drop_last(), locals: s.locals },
                        s.stack.last(),
                    ),
                )
            } else {
                SpecStep::Done(SpecOutcome::Throw(Value::Undefined))
            },
            Instruction::Return => if s.stack.len() > 0 {
                SpecStep::Done(SpecOutcome::Return(s.stack.last()))
            } else {
                SpecStep::Done(SpecOutcome::Throw(Value::Undefined))
            },
            Instruction::ReturnUndefined => SpecStep::Done(SpecOutcome::Return(Value::Undefined)),
            Instruction::Throw => if s.stack.len() > 0 {
                SpecStep::Done(SpecOutcome::Throw(s.stack.last()))
            } else {
                SpecStep::Done(SpecOutcome::Throw(Value::Undefined))
            },
        }
    }
}

/// `n` small steps from `s`: the outcome if the machine finished within `n`
/// steps, or the state it reached.
pub open spec fn spec_run(exe: ExecutableHeapData, s: MachineState, n: nat) -> SpecStep
    decreases n,
{
    if n == 0 {
        SpecStep::More(s)
    } else {
        match spec_step(exe, s) {
            SpecStep::Done(o) => SpecStep::Done(o),
            SpecStep::More(s2) => spec_run(exe, s2, (n - 1) as nat),
        }
    }
}

/// Running one more step after `n` steps is one step from where `n` steps
/// ended.
pub proof fn lemma_spec_run_snoc(exe: ExecutableHeapData, s: MachineState, n: nat)
    ensures
        spec_run(exe, s, n + 1) == match spec_run(exe, s, n) {
            SpecStep::Done(o) => SpecStep::Done(o),
            SpecStep::More(s2) => spec_step(exe, s2),
        },
    decreases n,
{
    if n == 0 {
        assert(spec_run(exe, s, 0) == SpecStep::More(s));
        match spec_step(exe, s) {
            SpecStep::Done(o) => {
                assert(spec_run(exe, s, 1) == SpecStep::Done(o));
            },
            SpecStep::More(s2) => {
                assert(spec_run(exe, s2, 0) == SpecStep::More(s2));
                assert(spec_run(exe, s, 1) == SpecStep::More(s2));
            },
        }
    } else {
        match spec_step(exe, s) {
            SpecStep::Done(o) => {
                assert(spec_run(exe, s, n) == SpecStep::Done(o));
                assert(spec_run(exe, s, n + 1) == SpecStep::Done(o));
            },
            SpecStep::More(s2) => {
                lemma_spec_run_snoc(exe, s2, (n - 1) as nat);
                assert(spec_run(exe, s, n) == spec_run(exe, s2, (n - 1) as nat));
                assert(spec_run(exe, s, n + 1) == spec_run(exe, s2, n));
            },
        }
    }
}

/// A parked execution snapshot: instruction pointer, operand stack, and local
/// bindings, fully self-contained and heap-inspectable.
#[derive(Debug, Clone)]
pub struct SuspendedVm {
    pub ip: u32,
    pub stack: Vec<Value>,
    pub locals: Vec<Value>,
}

impl SuspendedVm {
    /// The machine state this snapshot denotes.
    pub open spec fn state(self) -> MachineState {
        MachineState { ip: self.ip as int, stack: self.stack@, locals: self.locals@ }
    }

    /// The state after injecting a resumption value at the suspension point.
    pub open spec fn resumed_state(self, value: Value) -> MachineState {
        MachineState { ip: self.ip as int, stack: self.stack@.push(value), locals: self.locals@ }
    }

    /// Is this snapshot safe to retain across a collection pause?
    ///
    /// Every value a snapshot embeds — the whole operand stack and every
    /// local binding — is enumerated by the mark phase and rewritten by the
    /// sweep phase, so a parked snapshot never holds an untraced temporary.
    /// The check stays explicit at every suspension boundary, as a
    /// correctness assertion rather than an optimisation.
    pub fn is_gc_safe(&self) -> (r: bool)
        ensures
            r,
    {
        true
    }

    /// Resume with a successful value: push it at the suspension point and
    /// continue stepping.
    pub fn resume(self, exe: &ExecutableHeapData, value: Value) -> (r: ExecutionResult)
        requires
            exe.instructions@.len() < u32::MAX,
        ensures
            exists|n: nat| spec_run(*exe, self.resumed_state(value), n) == SpecStep::Done(
                spec_outcome_of(r),
            ),
    {
        let ghost orig = self;
        let SuspendedVm { ip, mut stack, locals } = self;
        stack.push(value);
        let vm = Vm { ip, stack, locals };
        proof {
            assert(vm.state() == orig.resumed_state(value));
        }
        vm.run(exe)
    }

    /// Resume with an injected exception, as if the suspended expression had
    /// thrown. The instruction set has no handler ranges, so the abrupt
    /// completion propagates out of the body unchanged.
    pub fn resume_throw(self, exe: &ExecutableHeapData, value: Value) -> (r: ExecutionResult)
        ensures
            r matches ExecutionResult::Throw(e) && e.spec_value() == value,
    {
        ExecutionResult::Throw(JsError::new(value))
    }
}

/// What one run of the engine ended with.
#[derive(Debug)]
pub enum ExecutionResult {
    /// Normal completion.
    Return(Value),
    /// Abrupt completion.
    Throw(JsError),
    /// Paused at a `yield`; the snapshot resumes after the yield.
    Yield { vm: SuspendedVm, yielded_value: Value },
    /// Paused at an `await`; the snapshot resumes after the await.
    Await { vm: SuspendedVm, awaited_value: Value },
}

/// The outcome an execution result denotes.
pub open spec fn spec_outcome_of(r: ExecutionResult) -> SpecOutcome {
    match r {
        ExecutionResult::Return(v) => SpecOutcome::Return(v),
        ExecutionResult::Throw(e) => SpecOutcome::Throw(e.spec_value()),
        ExecutionResult::Yield { vm, yielded_value } => SpecOutcome::Yield(
            vm.state(),
            yielded_value,
        ),
        ExecutionResult::Await { vm, awaited_value } => SpecOutcome::Await(
            vm.state(),
            awaited_value,
        ),
    }
}

/// A live execution frame: the state the interpreter is stepping.
#[derive(Debug)]
pub struct Vm {
    pub ip: u32,
    pub stack: Vec<Value>,
    pub locals: Vec<Value>,
}

/// The initial machine state for a call: empty stack, arguments copied into
/// the leading local slots, remaining locals `undefined`.
pub open spec fn spec_initial_state(exe: ExecutableHeapData, args: Seq<Value>) -> MachineState {
    MachineState {
        ip: 0,
        stack: Seq::empty(),
        locals: Seq::new(
            exe.local_count as nat,
            |i: int|
                if i < args.len() && i < exe.local_count {
                    args[i]
                } else {
                    Value::Undefined
                },
        ),
    }
}

impl Vm {
    /// The machine state this frame denotes.
    pub open spec fn state(self) -> MachineState {
        MachineState { ip: self.ip as int, stack: self.stack@, locals: self.locals@ }
    }

    /// Run a compiled body from the start, with the given arguments bound to
    /// the leading local slots.
    pub fn execute(exe: &ExecutableHeapData, args: &[Value]) -> (r: ExecutionResult)
        requires
            exe.instructions@.len() < u32::MAX,
        ensures
            exists|n: nat| spec_run(*exe, spec_initial_state(*exe, args@), n) == SpecStep::Done(
                spec_outcome_of(r),
            ),
    {
        let mut locals: Vec<Value> = Vec::new();
        let count = exe.local_count;
        let mut i: u32 = 0;
        while i < count
            invariant
                0 <= i <= count,
                locals@.len() == i,
                forall|j: int|
                    0 <= j < i ==> locals@[j] == if j < args@.len() {
                        args@[j]
                    } else {
                        Value::Undefined
                    },
            decreases count - i,
        {
            if (i as usize) < args.len() {
                locals.push(args[i as usize]);
            } else {
                locals.push(Value::Undefined);
            }
            i += 1;
        }
        let vm = Vm { ip: 0, stack: Vec::new(), locals };
        proof {
            assert(vm.state().locals =~= spec_initial_state(*exe, args@).locals);
            assert(vm.state().stack =~= spec_initial_state(*exe, args@).stack);
            assert(vm.state() == spec_initial_state(*exe, args@));
        }
        vm.run(exe)
    }

    /// Step until the machine completes or suspends.
    #[verifier::loop_isolation(false)]
    pub fn run(self, exe: &ExecutableHeapData) -> (r: ExecutionResult)
        requires
            exe.instructions@.len() < u32::MAX,
        ensures
            exists|n: nat| spec_run(*exe, self.state(), n) == SpecStep::Done(spec_outcome_of(r)),
    {
        let ghost start = self.state();
        let mut vm = self;
        let ghost mut steps: nat = 0nat;
        loop
            invariant
                exe.instructions@.len() < u32::MAX,
                spec_run(*exe, start, steps) == SpecStep::More(vm.state()),
            decreases exe.instructions@.len() - vm.ip,
        {
            proof {
                lemma_spec_run_snoc(*exe, start, steps);
            }
            let ghost pre = vm.state();
            if vm.ip as usize >= exe.instructions.len() {
                assert(spec_run(*exe, start, steps + 1) == SpecStep::Done(
                    SpecOutcome::Return(Value::Undefined),
                ));
                return ExecutionResult::Return(Value::Undefined);
            }
            let instr = exe.instructions[vm.ip as usize];
            match instr {
                Instruction::LoadConstant(i) => {
                    if (i as usize) < exe.constants.len() {
                        vm.stack.push(exe.constants[i as usize]);
                        vm.ip = vm.ip + 1;
                        proof {
                            steps = steps + 1;
                        }
                    } else {
                        assert(spec_run(*exe, start, steps + 1) == SpecStep::Done(
                            SpecOutcome::Throw(Value::Undefined),
                        ));
                        return ExecutionResult::Throw(JsError::new(Value::Undefined));
                    }
                },
                Instruction::LoadLocal(i) => {
                    if (i as usize) < vm.locals.len() {
                        let v = vm.locals[i as usize];
                        vm.stack.push(v);
                        vm.ip = vm.ip + 1;
                        proof {
                            steps = steps + 1;
                        }
                    } else {
                        assert(spec_run(*exe, start, steps + 1) == SpecStep::Done(
                            SpecOutcome::Throw(Value::Undefined),
                        ));
                        return ExecutionResult::Throw(JsError::new(Value::Undefined));
                    }
                },
                Instruction::StoreLocal(i) => {
                    if (i as usize) < vm.locals.len() && vm.stack.len() > 0 {
                        let v = vm.stack.pop().unwrap();
                        vm.locals[i as usize] = v;
                        vm.ip = vm.ip + 1;
                        proof {
                            steps = steps + 1;
                        }
                    } else {
                        assert(spec_run(*exe, start, steps + 1) == SpecStep::Done(
                            SpecOutcome::Throw(Value::Undefined),
                        ));
                        return ExecutionResult::Throw(JsError::new(Value::Undefined));
                    }
                },
                Instruction::PushUndefined => {
                    vm.stack.push(Value::Undefined);
                    vm.ip = vm.ip + 1;
                    proof {
                        steps = steps + 1;
                    }
                },
                Instruction::Pop => {
                    if vm.stack.len() > 0 {
                        vm.stack.pop();
                        vm.ip = vm.ip + 1;
                        proof {
                            steps = steps + 1;
                        }
                    } else {
                        assert(spec_run(*exe, start, steps + 1) == SpecStep::Done(
                            SpecOutcome::Throw(Value::Undefined),
                        ));
                        return ExecutionResult::Throw(JsError::new(Value::Undefined));
                    }
                },
                Instruction::Yield => {
                    if vm.stack.len() > 0 {
                        let v = vm.stack.pop().unwrap();
                        let Vm { ip, stack, locals } = vm;
                        let snapshot = SuspendedVm { ip: ip + 1, stack, locals };
                        assert(spec_run(*exe, start, steps + 1) == SpecStep::Done(
                            SpecOutcome::Yield(snapshot.state(), v),
                        ));
                        return ExecutionResult::Yield { vm: snapshot, yielded_value: v };
                    } else {
                        assert(spec_run(*exe, start, steps + 1) == SpecStep::Done(
                            SpecOutcome::Throw(Value::Undefined),
                        ));
                        return ExecutionResult::Throw(JsError::new(Value::Undefined));
                    }
                },
                Instruction::Await => {
                    if vm.stack.len() > 0 {
                        let v = vm.stack.pop().unwrap();
                        let Vm { ip, stack, locals } = vm;
                        let snapshot = SuspendedVm { ip: ip + 1, stack, locals };
                        assert(spec_run(*exe, start, steps + 1) == SpecStep::Done(
                            SpecOutcome::Await(snapshot.state(), v),
                        ));
                        return ExecutionResult::Await { vm: snapshot, awaited_value: v };
                    } else {
                        assert(spec_run(*exe, start, steps + 1) == SpecStep::Done(
                            SpecOutcome::Throw(Value::Undefined),
                        ));
                        return ExecutionResult::Throw(JsError::new(Value::Undefined));
                    }
                },
                Instruction::Return => {
                    if vm.stack.len() > 0 {
                        let v = vm.stack.pop().unwrap();
                        assert(spec_run(*exe, start, steps + 1) == SpecStep::Done(
                            SpecOutcome::Return(v),
                        ));
                        return ExecutionResult::Return(v);
                    } else {
                        assert(spec_run(*exe, start, steps + 1) == SpecStep::Done(
                            SpecOutcome::Throw(Value::Undefined),
                        ));
                        return ExecutionResult::Throw(JsError::new(Value::Undefined));
                    }
                },
                Instruction::ReturnUndefined => {
                    assert(spec_run(*exe, start, steps + 1) == SpecStep::Done(
                        SpecOutcome::Return(Value::Undefined),
                    ));
                    return ExecutionResult::Return(Value::Undefined);
                },
                Instruction::Throw => {
                    if vm.stack.len() > 0 {
                        let v = vm.stack.pop().unwrap();
                        assert(spec_run(*exe, start, steps + 1) == SpecStep::Done(
                            SpecOutcome::Throw(v),
                        ));
                        return ExecutionResult::Throw(JsError::new(v));
                    } else {
                        assert(spec_run(*exe, start, steps + 1) == SpecStep::Done(
                            SpecOutcome::Throw(Value::Undefined),
                        ));
                        return ExecutionResult::Throw(JsError::new(Value::Undefined));
                    }
                },
            }
        }
    }
}

} // verus!
