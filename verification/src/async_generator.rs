//! Async-generator objects: the generator state machine extended with a FIFO
//! request queue and a second suspension flavour for internal awaits.
//!
//! Every `next`/`return`/`throw` call queues an [`AsyncGeneratorRequest`]
//! rather than running immediately; the queue is never discarded, only
//! drained front-first. While executing, the machine may park on an internal
//! await, tagged with which kind of await it is: a plain `await`, the
//! implicit await wrapping a `next`-driven yield, or the implicit await
//! wrapping a `return`-driven completion.

use vstd::prelude::*;

verus! {

use std::collections::VecDeque;

use crate::agent::{Agent, ExecutionContext};
use crate::error::JsError;
use crate::heap::Heap;
use crate::indexes::BaseIndex;
use crate::object::OrdinaryObject;
use crate::promise::{Promise, PromiseCapability, PromiseReactionType};
use crate::value::Value;
use crate::vm::{Executable, SuspendedVm};

/// How a queued call asks the generator to be resumed.
#[derive(Debug, Clone, Copy)]
pub enum AsyncGeneratorRequestCompletion {
    /// A `next(value)` call.
    Normal(Value),
    /// A `throw(error)` call.
    Throw(JsError),
    /// A `return(value)` call.
    Return(Value),
}

/// A queued unit of work: one resumption completion paired with the promise
/// capability that must eventually be settled with its outcome.
#[derive(Debug, Clone, Copy)]
pub struct AsyncGeneratorRequest {
    /// How to resume the generator.
    pub completion: AsyncGeneratorRequestCompletion,
    /// The capability of the promise handed back to the caller.
    pub capability: PromiseCapability,
}

/// Which kind of internal await an executing async generator parked on.
#[derive(Debug, Clone, Copy, PartialEq, Eq, Structural)]
pub enum AsyncGeneratorAwaitKind {
    /// An explicit `await` in the body.
    Await,
    /// The implicit await wrapping a `next`-driven yield.
    Yield,
    /// The implicit await wrapping a `return`-driven completion.
    Return,
}

/// The async-generator state machine.
#[derive(Debug, Clone)]
pub enum AsyncGeneratorState {
    /// Holds the initial snapshot; the body has not run yet.
    SuspendedStart {
        vm: SuspendedVm,
        execution_context: ExecutionContext,
        queue: VecDeque<AsyncGeneratorRequest>,
    },
    /// Parked after a yield settled.
    SuspendedYield {
        vm: SuspendedVm,
        execution_context: ExecutionContext,
        queue: VecDeque<AsyncGeneratorRequest>,
    },
    /// The snapshot is checked out and running.
    Executing(VecDeque<AsyncGeneratorRequest>),
    /// Executing, but parked on an internal await; from the language's
    /// perspective the generator is still running.
    ExecutingAwait {
        vm: SuspendedVm,
        execution_context: ExecutionContext,
        queue: VecDeque<AsyncGeneratorRequest>,
        kind: AsyncGeneratorAwaitKind,
    },
    /// Processing a `return` call: let the pending await settle, then flush
    /// the remaining queued requests with the return value, running no more
    /// generator code.
    DrainingQueue(VecDeque<AsyncGeneratorRequest>),
    /// Terminal; the queue drains to `done` results.
    Completed(VecDeque<AsyncGeneratorRequest>),
}

impl AsyncGeneratorState {
    /// The request queue, whatever the state.
    pub open spec fn spec_queue(self) -> Seq<AsyncGeneratorRequest> {
        match self {
            AsyncGeneratorState::SuspendedStart { queue, .. } => queue@,
            AsyncGeneratorState::SuspendedYield { queue, .. } => queue@,
            AsyncGeneratorState::Executing(queue) => queue@,
            AsyncGeneratorState::ExecutingAwait { queue, .. } => queue@,
            AsyncGeneratorState::DrainingQueue(queue) => queue@,
            AsyncGeneratorState::Completed(queue) => queue@,
        }
    }

    /// Is the machine in one of the running states?
    pub open spec fn spec_is_active(self) -> bool {
        self matches AsyncGeneratorState::DrainingQueue(_) || self matches AsyncGeneratorState::Executing(
            _,
        ) || self matches AsyncGeneratorState::ExecutingAwait { .. }
    }

    /// Is the machine draining its queue, executing, or parked on an internal
    /// await? Exactly the states `DrainingQueue`, `Executing` and
    /// `ExecutingAwait`.
    pub fn is_active(&self) -> (r: bool)
        ensures
            r == self.spec_is_active(),
    {
        matches!(
            self,
            AsyncGeneratorState::DrainingQueue(_) | AsyncGeneratorState::Executing(_)
                | AsyncGeneratorState::ExecutingAwait { .. }
        )
    }

    /// Is the machine completed?
    pub fn is_completed(&self) -> (r: bool)
        ensures
            r == (*self matches AsyncGeneratorState::Completed(_)),
    {
        matches!(self, AsyncGeneratorState::Completed(_))
    }

    /// Is the machine draining its queue?
    pub fn is_draining_queue(&self) -> (r: bool)
        ensures
            r == (*self matches AsyncGeneratorState::DrainingQueue(_)),
    {
        matches!(self, AsyncGeneratorState::DrainingQueue(_))
    }

    /// Is the machine executing, not parked on an await?
    pub fn is_executing(&self) -> (r: bool)
        ensures
            r == (*self matches AsyncGeneratorState::Executing(_)),
    {
        matches!(self, AsyncGeneratorState::Executing(_))
    }

    /// Is the machine parked on an internal await?
    pub fn is_executing_await(&self) -> (r: bool)
        ensures
            r == (*self matches AsyncGeneratorState::ExecutingAwait { .. }),
    {
        matches!(self, AsyncGeneratorState::ExecutingAwait { .. })
    }

    /// Is the machine suspended, before its start or after a yield?
    pub fn is_suspended(&self) -> (r: bool)
        ensures
            r == (*self matches AsyncGeneratorState::SuspendedStart { .. } || *self matches AsyncGeneratorState::SuspendedYield { .. }),
    {
        matches!(
            self,
            AsyncGeneratorState::SuspendedStart { .. } | AsyncGeneratorState::SuspendedYield { .. }
        )
    }

    /// Is the machine suspended before its start?
    pub fn is_suspended_start(&self) -> (r: bool)
        ensures
            r == (*self matches AsyncGeneratorState::SuspendedStart { .. }),
    {
        matches!(self, AsyncGeneratorState::SuspendedStart { .. })
    }

    /// Is the machine parked after a yield?
    pub fn is_suspended_yield(&self) -> (r: bool)
        ensures
            r == (*self matches AsyncGeneratorState::SuspendedYield { .. }),
    {
        matches!(self, AsyncGeneratorState::SuspendedYield { .. })
    }
}

/// A heap-resident async-generator record.
#[derive(Debug, Clone)]
pub struct AsyncGeneratorHeapData {
    /// Backing ordinary object, created lazily.
    pub object_index: Option<OrdinaryObject>,
    /// `None` only transiently, while a transition holds the state.
    pub async_generator_state: Option<AsyncGeneratorState>,
    /// The compiled body, cached on first execution.
    pub executable: Option<Executable>,
}

/// Tag of the async-generator heap kind.
#[derive(Debug, Clone, Copy, Hash)]
pub struct AsyncGeneratorTag;

/// Handle into the async-generator arena.
pub type AsyncGeneratorIndex = BaseIndex<AsyncGeneratorTag>;

/// An async-generator object, addressed by its arena slot.
#[derive(Debug, Clone, Copy, PartialEq, Eq)]
pub struct AsyncGenerator(pub AsyncGeneratorIndex);

impl AsyncGenerator {
    /// The placeholder handle: slot zero.
    pub fn _def() -> (r: Self)
        ensures
            r.0.index() == 0,
    {
        AsyncGenerator(BaseIndex::from_u32_index(0))
    }

    /// The arena slot this generator lives in.
    pub fn get_index(self) -> (r: usize)
        ensures
            r == self.0.index(),
    {
        self.0.into_index()
    }

    /// The value carrying this generator.
    pub fn into_value(self) -> (r: Value)
        ensures
            r == Value::AsyncGenerator(self),
    {
        Value::AsyncGenerator(self)
    }

    /// The generator a value carries, if it carries one.
    pub fn try_from_value(value: Value) -> (r: Option<AsyncGenerator>)
        ensures
            match value {
                Value::AsyncGenerator(g) => r == Some(g),
                _ => r is None,
            },
    {
        if let Value::AsyncGenerator(g) = value {
            Some(g)
        } else {
            None
        }
    }
}

impl AsyncGenerator {
    /// The backing ordinary object, when one was created.
    pub fn get_backing_object(self, agent: &Agent) -> (r: Option<OrdinaryObject>)
        requires
            agent.heap.async_generators.valid(self.0),
        ensures
            r == agent.heap.async_generators.spec_get(self.0).object_index,
    {
        agent.heap.async_generators.get(self.0).object_index
    }

    /// Attach the backing ordinary object. A generator has at most one:
    /// attaching a second is a programming-error-class failure, excluded
    /// here.
    pub fn set_backing_object(self, agent: &mut Agent, backing_object: OrdinaryObject)
        requires
            old(agent).heap.async_generators.valid(self.0),
            old(agent).heap.async_generators.spec_get(self.0).object_index is None,
        ensures
            final(agent).heap.async_generators.valid(self.0),
            final(agent).heap.async_generators.spec_get(self.0).object_index == Some(
                backing_object,
            ),
            final(agent).heap.async_generators.spec_get(self.0).async_generator_state == old(agent).heap.async_generators.spec_get(self.0).async_generator_state,
            final(agent).heap.async_generators.spec_get(self.0).executable == old(agent).heap.async_generators.spec_get(self.0).executable,
            agent_same_but_async_generators(*old(agent), *final(agent)),
    {
        let record = agent.heap.async_generators.get_mut(self.0);
        record.object_index = Some(backing_object);
    }

    /// The cached compiled body.
    pub fn get_executable(self, agent: &Agent) -> (r: Executable)
        requires
            agent.heap.async_generators.valid(self.0),
            agent.heap.async_generators.spec_get(self.0).executable is Some,
        ensures
            Some(r) == agent.heap.async_generators.spec_get(self.0).executable,
    {
        let record = agent.heap.async_generators.get(self.0);
        match record.executable {
            Some(e) => e,
            None => {
                proof {
                    assert(false);
                }
                vstd::pervasive::unreached()
            },
        }
    }

    /// The machine's current state.
    pub open spec fn spec_state(self, agent: Agent) -> AsyncGeneratorState
        recommends
            agent.heap.async_generators.valid(self.0),
    {
        agent.heap.async_generators.spec_get(self.0).async_generator_state->Some_0
    }

    /// Is the machine draining its queue or executing (with or without an
    /// internal await parked)?
    pub fn is_active(self, agent: &Agent) -> (r: bool)
        requires
            agent.heap.async_generators.valid(self.0),
            agent.heap.async_generators.spec_get(self.0).async_generator_state is Some,
        ensures
            r == self.spec_state(*agent).spec_is_active(),
    {
        let record = agent.heap.async_generators.get(self.0);
        match &record.async_generator_state {
            Some(state) => state.is_active(),
            None => {
                proof {
                    assert(false);
                }
                vstd::pervasive::unreached()
            },
        }
    }

    /// Is the machine draining its queue?
    pub fn is_draining_queue(self, agent: &Agent) -> (r: bool)
        requires
            agent.heap.async_generators.valid(self.0),
            agent.heap.async_generators.spec_get(self.0).async_generator_state is Some,
        ensures
            r == (self.spec_state(*agent) matches AsyncGeneratorState::DrainingQueue(_)),
    {
        let record = agent.heap.async_generators.get(self.0);
        match &record.async_generator_state {
            Some(state) => state.is_draining_queue(),
            None => {
                proof {
                    assert(false);
                }
                vstd::pervasive::unreached()
            },
        }
    }

    /// Is the machine executing, not parked on an await?
    pub fn is_executing(self, agent: &Agent) -> (r: bool)
        requires
            agent.heap.async_generators.valid(self.0),
            agent.heap.async_generators.spec_get(self.0).async_generator_state is Some,
        ensures
            r == (self.spec_state(*agent) matches AsyncGeneratorState::Executing(_)),
    {
        let record = agent.heap.async_generators.get(self.0);
        match &record.async_generator_state {
            Some(state) => state.is_executing(),
            None => {
                proof {
                    assert(false);
                }
                vstd::pervasive::unreached()
            },
        }
    }

    /// Is the machine parked on an internal await?
    pub fn is_executing_await(self, agent: &Agent) -> (r: bool)
        requires
            agent.heap.async_generators.valid(self.0),
            agent.heap.async_generators.spec_get(self.0).async_generator_state is Some,
        ensures
            r == (self.spec_state(*agent) matches AsyncGeneratorState::ExecutingAwait { .. }),
    {
        let record = agent.heap.async_generators.get(self.0);
        match &record.async_generator_state {
            Some(state) => state.is_executing_await(),
            None => {
                proof {
                    assert(false);
                }
                vstd::pervasive::unreached()
            },
        }
    }

    /// Is the machine suspended before its start?
    pub fn is_suspended_start(self, agent: &Agent) -> (r: bool)
        requires
            agent.heap.async_generators.valid(self.0),
            agent.heap.async_generators.spec_get(self.0).async_generator_state is Some,
        ensures
            r == (self.spec_state(*agent) matches AsyncGeneratorState::SuspendedStart { .. }),
    {
        let record = agent.heap.async_generators.get(self.0);
        match &record.async_generator_state {
            Some(state) => state.is_suspended_start(),
            None => {
                proof {
                    assert(false);
                }
                vstd::pervasive::unreached()
            },
        }
    }

    /// Is the machine parked after a yield?
    pub fn is_suspended_yield(self, agent: &Agent) -> (r: bool)
        requires
            agent.heap.async_generators.valid(self.0),
            agent.heap.async_generators.spec_get(self.0).async_generator_state is Some,
        ensures
            r == (self.spec_state(*agent) matches AsyncGeneratorState::SuspendedYield { .. }),
    {
        let record = agent.heap.async_generators.get(self.0);
        match &record.async_generator_state {
            Some(state) => state.is_suspended_yield(),
            None => {
                proof {
                    assert(false);
                }
                vstd::pervasive::unreached()
            },
        }
    }

    /// Is the machine completed?
    pub fn is_completed(self, agent: &Agent) -> (r: bool)
        requires
            agent.heap.async_generators.valid(self.0),
            agent.heap.async_generators.spec_get(self.0).async_generator_state is Some,
        ensures
            r == (self.spec_state(*agent) matches AsyncGeneratorState::Completed(_)),
    {
        let record = agent.heap.async_generators.get(self.0);
        match &record.async_generator_state {
            Some(state) => state.is_completed(),
            None => {
                proof {
                    assert(false);
                }
                vstd::pervasive::unreached()
            },
        }
    }

    /// Does the request queue hold nothing?
    pub fn queue_is_empty(self, agent: &Agent) -> (r: bool)
        requires
            agent.heap.async_generators.valid(self.0),
            agent.heap.async_generators.spec_get(self.0).async_generator_state is Some,
        ensures
            r == (self.spec_state(*agent).spec_queue().len() == 0),
    {
        let record = agent.heap.async_generators.get(self.0);
        match &record.async_generator_state {
            Some(AsyncGeneratorState::ExecutingAwait { queue, .. }) => queue.len() == 0,
            Some(AsyncGeneratorState::SuspendedStart { queue, .. }) => queue.len() == 0,
            Some(AsyncGeneratorState::SuspendedYield { queue, .. }) => queue.len() == 0,
            Some(AsyncGeneratorState::Executing(queue)) => queue.len() == 0,
            Some(AsyncGeneratorState::DrainingQueue(queue)) => queue.len() == 0,
            Some(AsyncGeneratorState::Completed(queue)) => queue.len() == 0,
            None => {
                proof {
                    assert(false);
                }
                vstd::pervasive::unreached()
            },
        }
    }

    /// The request at the front of the queue.
    pub fn peek_first(self, agent: &Agent) -> (r: AsyncGeneratorRequest)
        requires
            agent.heap.async_generators.valid(self.0),
            agent.heap.async_generators.spec_get(self.0).async_generator_state is Some,
            self.spec_state(*agent).spec_queue().len() > 0,
        ensures
            r == self.spec_state(*agent).spec_queue()[0],
    {
        let record = agent.heap.async_generators.get(self.0);
        match &record.async_generator_state {
            Some(AsyncGeneratorState::ExecutingAwait { queue, .. }) => queue[0],
            Some(AsyncGeneratorState::SuspendedStart { queue, .. }) => queue[0],
            Some(AsyncGeneratorState::SuspendedYield { queue, .. }) => queue[0],
            Some(AsyncGeneratorState::Executing(queue)) => queue[0],
            Some(AsyncGeneratorState::DrainingQueue(queue)) => queue[0],
            Some(AsyncGeneratorState::Completed(queue)) => queue[0],
            None => {
                proof {
                    assert(false);
                }
                vstd::pervasive::unreached()
            },
        }
    }

    /// Remove and return the request at the front of the queue: the queue is
    /// serviced strictly first-in, first-out.
    pub fn pop_first(self, agent: &mut Agent) -> (r: AsyncGeneratorRequest)
        requires
            old(agent).heap.async_generators.valid(self.0),
            old(agent).heap.async_generators.spec_get(self.0).async_generator_state is Some,
            self.spec_state(*old(agent)).spec_queue().len() > 0,
        ensures
            r == self.spec_state(*old(agent)).spec_queue()[0],
            final(agent).heap.async_generators.valid(self.0),
            final(agent).heap.async_generators.spec_get(self.0).async_generator_state is Some,
            self.spec_state(*final(agent)).spec_queue() == self.spec_state(
                *old(agent),
            ).spec_queue().drop_first(),
            states_agree(self.spec_state(*old(agent)), self.spec_state(*final(agent))),
            final(agent).heap.async_generators.spec_get(self.0).executable == old(agent).heap.async_generators.spec_get(self.0).executable,
            final(agent).heap.async_generators.spec_get(self.0).object_index == old(agent).heap.async_generators.spec_get(self.0).object_index,
            agent_same_but_async_generators(*old(agent), *final(agent)),
    {
        let record = agent.heap.async_generators.get_mut(self.0);
        match &mut record.async_generator_state {
            Some(AsyncGeneratorState::ExecutingAwait { queue, .. }) => queue.pop_front().unwrap(),
            Some(AsyncGeneratorState::SuspendedStart { queue, .. }) => queue.pop_front().unwrap(),
            Some(AsyncGeneratorState::SuspendedYield { queue, .. }) => queue.pop_front().unwrap(),
            Some(AsyncGeneratorState::Executing(queue)) => queue.pop_front().unwrap(),
            Some(AsyncGeneratorState::DrainingQueue(queue)) => queue.pop_front().unwrap(),
            Some(AsyncGeneratorState::Completed(queue)) => queue.pop_front().unwrap(),
            None => {
                proof {
                    assert(false);
                }
                vstd::pervasive::unreached()
            },
        }
    }

    /// Append a request at the back of the queue: the queue is never
    /// discarded, whatever the state.
    pub fn append_to_queue(self, agent: &mut Agent, request: AsyncGeneratorRequest)
        requires
            old(agent).heap.async_generators.valid(self.0),
            old(agent).heap.async_generators.spec_get(self.0).async_generator_state is Some,
        ensures
            final(agent).heap.async_generators.valid(self.0),
            final(agent).heap.async_generators.spec_get(self.0).async_generator_state is Some,
            self.spec_state(*final(agent)).spec_queue() == self.spec_state(
                *old(agent),
            ).spec_queue().push(request),
            states_agree(self.spec_state(*old(agent)), self.spec_state(*final(agent))),
            final(agent).heap.async_generators.spec_get(self.0).executable == old(agent).heap.async_generators.spec_get(self.0).executable,
            final(agent).heap.async_generators.spec_get(self.0).object_index == old(agent).heap.async_generators.spec_get(self.0).object_index,
            agent_same_but_async_generators(*old(agent), *final(agent)),
    {
        let record = agent.heap.async_generators.get_mut(self.0);
        match &mut record.async_generator_state {
            Some(AsyncGeneratorState::ExecutingAwait { queue, .. }) => queue.push_back(request),
            Some(AsyncGeneratorState::SuspendedStart { queue, .. }) => queue.push_back(request),
            Some(AsyncGeneratorState::SuspendedYield { queue, .. }) => queue.push_back(request),
            Some(AsyncGeneratorState::Executing(queue)) => queue.push_back(request),
            Some(AsyncGeneratorState::DrainingQueue(queue)) => queue.push_back(request),
            Some(AsyncGeneratorState::Completed(queue)) => queue.push_back(request),
            None => {
                proof {
                    assert(false);
                }
                vstd::pervasive::unreached()
            },
        }
    }

    /// Move to `DrainingQueue`, keeping the queue. Only a suspended, plainly
    /// executing, or completed machine may start draining.
    pub fn transition_to_draining_queue(self, agent: &mut Agent)
        requires
            old(agent).heap.async_generators.valid(self.0),
            old(agent).heap.async_generators.spec_get(self.0).async_generator_state is Some,
            !(self.spec_state(*old(agent)) matches AsyncGeneratorState::ExecutingAwait { .. }),
            !(self.spec_state(*old(agent)) matches AsyncGeneratorState::DrainingQueue(_)),
        ensures
            final(agent).heap.async_generators.valid(self.0),
            self.spec_state(*final(agent)) == AsyncGeneratorState::DrainingQueue(
                spec_queue_of(self.spec_state(*old(agent))),
            ),
            final(agent).heap.async_generators.spec_get(self.0).async_generator_state is Some,
            final(agent).heap.async_generators.spec_get(self.0).executable == old(agent).heap.async_generators.spec_get(self.0).executable,
            agent_same_but_async_generators(*old(agent), *final(agent)),
    {
        let record = agent.heap.async_generators.get_mut(self.0);
        let mut state: Option<AsyncGeneratorState> = None;
        core::mem::swap(&mut state, &mut record.async_generator_state);
        let queue = match state {
            Some(AsyncGeneratorState::SuspendedStart { queue, .. }) => queue,
            Some(AsyncGeneratorState::SuspendedYield { queue, .. }) => queue,
            Some(AsyncGeneratorState::Executing(queue)) => queue,
            Some(AsyncGeneratorState::Completed(queue)) => queue,
            _ => {
                proof {
                    assert(false);
                }
                vstd::pervasive::unreached()
            },
        };
        record.async_generator_state = Some(AsyncGeneratorState::DrainingQueue(queue));
    }

    /// Move to `Completed`, keeping the queue, from any state.
    pub fn transition_to_complete(self, agent: &mut Agent)
        requires
            old(agent).heap.async_generators.valid(self.0),
            old(agent).heap.async_generators.spec_get(self.0).async_generator_state is Some,
        ensures
            final(agent).heap.async_generators.valid(self.0),
            self.spec_state(*final(agent)) == AsyncGeneratorState::Completed(
                spec_queue_of(self.spec_state(*old(agent))),
            ),
            final(agent).heap.async_generators.spec_get(self.0).async_generator_state is Some,
            final(agent).heap.async_generators.spec_get(self.0).executable == old(agent).heap.async_generators.spec_get(self.0).executable,
            agent_same_but_async_generators(*old(agent), *final(agent)),
    {
        let record = agent.heap.async_generators.get_mut(self.0);
        let mut state: Option<AsyncGeneratorState> = None;
        core::mem::swap(&mut state, &mut record.async_generator_state);
        let queue = match state {
            Some(AsyncGeneratorState::SuspendedStart { queue, .. }) => queue,
            Some(AsyncGeneratorState::SuspendedYield { queue, .. }) => queue,
            Some(AsyncGeneratorState::Executing(queue)) => queue,
            Some(AsyncGeneratorState::ExecutingAwait { queue, .. }) => queue,
            Some(AsyncGeneratorState::DrainingQueue(queue)) => queue,
            Some(AsyncGeneratorState::Completed(queue)) => queue,
            None => {
                proof {
                    assert(false);
                }
                vstd::pervasive::unreached()
            },
        };
        record.async_generator_state = Some(AsyncGeneratorState::Completed(queue));
    }

    /// Park an executing machine on an internal await of the given kind.
    pub fn transition_to_awaiting(
        self,
        agent: &mut Agent,
        vm: SuspendedVm,
        kind: AsyncGeneratorAwaitKind,
        execution_context: ExecutionContext,
    )
        requires
            old(agent).heap.async_generators.valid(self.0),
            self.spec_state(*old(agent)) matches AsyncGeneratorState::Executing(_),
            old(agent).heap.async_generators.spec_get(self.0).async_generator_state is Some,
        ensures
            final(agent).heap.async_generators.valid(self.0),
            final(agent).heap.async_generators.spec_get(self.0).async_generator_state is Some,
            (self.spec_state(*final(agent)) matches AsyncGeneratorState::ExecutingAwait {
                vm: v,
                execution_context: ec,
                queue,
                kind: k,
            } && v == vm && ec == execution_context && queue@ == spec_queue_of(
                self.spec_state(*old(agent)),
            )@ && k == kind),
            final(agent).heap.async_generators.spec_get(self.0).executable == old(agent).heap.async_generators.spec_get(self.0).executable,
            agent_same_but_async_generators(*old(agent), *final(agent)),
    {
        let record = agent.heap.async_generators.get_mut(self.0);
        let mut state: Option<AsyncGeneratorState> = None;
        core::mem::swap(&mut state, &mut record.async_generator_state);
        let queue = match state {
            Some(AsyncGeneratorState::Executing(queue)) => queue,
            _ => {
                proof {
                    assert(false);
                }
                vstd::pervasive::unreached()
            },
        };
        record.async_generator_state = Some(
            AsyncGeneratorState::ExecutingAwait { vm, execution_context, queue, kind },
        );
    }

    /// Check a suspended machine's snapshot out and start executing.
    pub fn transition_to_executing(self, agent: &mut Agent) -> (r: (
        SuspendedVm,
        ExecutionContext,
        Executable,
    ))
        requires
            old(agent).heap.async_generators.valid(self.0),
            old(agent).heap.async_generators.spec_get(self.0).async_generator_state is Some,
            (self.spec_state(*old(agent)) matches AsyncGeneratorState::SuspendedStart { .. }
                || self.spec_state(*old(agent)) matches AsyncGeneratorState::SuspendedYield { .. }),
            old(agent).heap.async_generators.spec_get(self.0).executable is Some,
        ensures
            final(agent).heap.async_generators.valid(self.0),
            final(agent).heap.async_generators.spec_get(self.0).async_generator_state is Some,
            self.spec_state(*final(agent)) matches AsyncGeneratorState::Executing(q) && q@
                == spec_queue_of(self.spec_state(*old(agent)))@,
            (match self.spec_state(*old(agent)) {
                AsyncGeneratorState::SuspendedStart { vm, execution_context, .. } => r.0 == vm
                    && r.1 == execution_context,
                AsyncGeneratorState::SuspendedYield { vm, execution_context, .. } => r.0 == vm
                    && r.1 == execution_context,
                _ => false,
            }),
            Some(r.2) == old(agent).heap.async_generators.spec_get(self.0).executable,
            final(agent).heap.async_generators.spec_get(self.0).executable == old(agent).heap.async_generators.spec_get(self.0).executable,
            agent_same_but_async_generators(*old(agent), *final(agent)),
    {
        let record = agent.heap.async_generators.get_mut(self.0);
        let mut state: Option<AsyncGeneratorState> = None;
        core::mem::swap(&mut state, &mut record.async_generator_state);
        let (vm, execution_context, queue) = match state {
            Some(AsyncGeneratorState::SuspendedStart { vm, execution_context, queue }) => (
                vm,
                execution_context,
                queue,
            ),
            Some(AsyncGeneratorState::SuspendedYield { vm, execution_context, queue }) => (
                vm,
                execution_context,
                queue,
            ),
            _ => {
                proof {
                    assert(false);
                }
                vstd::pervasive::unreached()
            },
        };
        record.async_generator_state = Some(AsyncGeneratorState::Executing(queue));
        let executable = match record.executable {
            Some(e) => e,
            None => {
                proof {
                    assert(false);
                }
                vstd::pervasive::unreached()
            },
        };
        (vm, execution_context, executable)
    }

    /// Park an executing machine after its yield settled.
    pub fn transition_to_suspended(
        self,
        agent: &mut Agent,
        vm: SuspendedVm,
        execution_context: ExecutionContext,
    )
        requires
            old(agent).heap.async_generators.valid(self.0),
            old(agent).heap.async_generators.spec_get(self.0).async_generator_state is Some,
            self.spec_state(*old(agent)) matches AsyncGeneratorState::Executing(_),
        ensures
            final(agent).heap.async_generators.valid(self.0),
            final(agent).heap.async_generators.spec_get(self.0).async_generator_state is Some,
            (self.spec_state(*final(agent)) matches AsyncGeneratorState::SuspendedYield {
                vm: v,
                execution_context: ec,
                queue,
            } && v == vm && ec == execution_context && queue@ == spec_queue_of(
                self.spec_state(*old(agent)),
            )@),
            final(agent).heap.async_generators.spec_get(self.0).executable == old(agent).heap.async_generators.spec_get(self.0).executable,
            agent_same_but_async_generators(*old(agent), *final(agent)),
    {
        let record = agent.heap.async_generators.get_mut(self.0);
        let mut state: Option<AsyncGeneratorState> = None;
        core::mem::swap(&mut state, &mut record.async_generator_state);
        let queue = match state {
            Some(AsyncGeneratorState::Executing(queue)) => queue,
            _ => {
                proof {
                    assert(false);
                }
                vstd::pervasive::unreached()
            },
        };
        record.async_generator_state = Some(
            AsyncGeneratorState::SuspendedYield { queue, vm, execution_context },
        );
    }
}

/// The machine state a parked internal await resumes to when its awaited
/// value arrives.
pub open spec fn spec_awaited_resume_state(s: AsyncGeneratorState, value: Value) -> crate::vm::MachineState {
    match s {
        AsyncGeneratorState::ExecutingAwait { vm, .. } => vm.resumed_state(value),
        _ => vstd::pervasive::arbitrary(),
    }
}

/// The queue a state holds.
pub open spec fn spec_queue_of(s: AsyncGeneratorState) -> VecDeque<AsyncGeneratorRequest> {
    match s {
        AsyncGeneratorState::SuspendedStart { queue, .. } => queue,
        AsyncGeneratorState::SuspendedYield { queue, .. } => queue,
        AsyncGeneratorState::Executing(queue) => queue,
        AsyncGeneratorState::ExecutingAwait { queue, .. } => queue,
        AsyncGeneratorState::DrainingQueue(queue) => queue,
        AsyncGeneratorState::Completed(queue) => queue,
    }
}

/// Two states of the same variant, with the same non-queue payload.
pub open spec fn states_agree(a: AsyncGeneratorState, b: AsyncGeneratorState) -> bool {
    match a {
        AsyncGeneratorState::SuspendedStart { vm, execution_context, .. } => b matches AsyncGeneratorState::SuspendedStart {
            vm: v2,
            execution_context: e2,
            ..
        } && v2 == vm && e2 == execution_context,
        AsyncGeneratorState::SuspendedYield { vm, execution_context, .. } => b matches AsyncGeneratorState::SuspendedYield {
            vm: v2,
            execution_context: e2,
            ..
        } && v2 == vm && e2 == execution_context,
        AsyncGeneratorState::Executing(_) => b matches AsyncGeneratorState::Executing(_),
        AsyncGeneratorState::ExecutingAwait { vm, execution_context, kind, .. } => b matches AsyncGeneratorState::ExecutingAwait {
            vm: v2,
            execution_context: e2,
            kind: k2,
            ..
        } && v2 == vm && e2 == execution_context && k2 == kind,
        AsyncGeneratorState::DrainingQueue(_) => b matches AsyncGeneratorState::DrainingQueue(_),
        AsyncGeneratorState::Completed(_) => b matches AsyncGeneratorState::Completed(_),
    }
}

/// Everything of the runtime but the async-generator arena is untouched.
pub open spec fn agent_same_but_async_generators(a: Agent, b: Agent) -> bool {
    &&& b.heap == (Heap { async_generators: b.heap.async_generators, ..a.heap })
    &&& b.heap.async_generators@.len() == a.heap.async_generators@.len()
    &&& b.execution_context_stack == a.execution_context_stack
    &&& b.globals == a.globals
    &&& b.weak_refs == a.weak_refs
    &&& b.realm == a.realm
}

/// Every queued request's promise is live, no two requests share a promise,
/// and none demands the settle-once re-check (the queue settles each
/// capability exactly once by construction).
pub open spec fn queue_requests_ok(agent: Agent, q: Seq<AsyncGeneratorRequest>) -> bool {
    &&& forall|i: int|
        0 <= i < q.len() ==> agent.heap.promises.valid(
            (#[trigger] q[i]).capability.promise,
        ) && !q[i].capability.must_be_unresolved
    &&& forall|i: int, j: int|
        0 <= i < j < q.len() ==> (#[trigger] q[i]).capability.promise.index() != (
        #[trigger] q[j]).capability.promise.index()
}

/// A generator whose record, state, compiled body, and queue are all in
/// working order, on a heap with room to allocate.
pub open spec fn async_generator_ready(agent: Agent, gen: AsyncGenerator) -> bool {
    &&& agent.heap.async_generators.valid(gen.0)
    &&& agent.heap.async_generators.spec_get(gen.0).async_generator_state is Some
    &&& agent.heap.async_generators.spec_get(gen.0).executable matches Some(exe)
        && agent.heap.executables.valid(exe) && agent.heap.executables.spec_get(
        exe,
    ).instructions@.len() < u32::MAX
    &&& queue_requests_ok(agent, gen.spec_state(agent).spec_queue())
    &&& agent.heap.objects@.len() + gen.spec_state(agent).spec_queue().len() + 4 < u32::MAX
    &&& agent.heap.strings@.len() + 4 < u32::MAX
    &&& agent.heap.errors@.len() + 4 < u32::MAX
    &&& agent.heap.promises@.len() + 4 < u32::MAX
}

/// A generator fit to service requests right now: like
/// [`async_generator_ready`], with the slack one queued call and one fresh
/// promise consume.
pub open spec fn async_generator_servicing_ok(agent: Agent, gen: AsyncGenerator) -> bool {
    &&& agent.heap.async_generators.valid(gen.0)
    &&& agent.heap.async_generators.spec_get(gen.0).async_generator_state is Some
    &&& agent.heap.async_generators.spec_get(gen.0).executable matches Some(exe)
        && agent.heap.executables.valid(exe) && agent.heap.executables.spec_get(
        exe,
    ).instructions@.len() < u32::MAX
    &&& queue_requests_ok(agent, gen.spec_state(agent).spec_queue())
    &&& agent.heap.objects@.len() + gen.spec_state(agent).spec_queue().len() + 2 < u32::MAX
    &&& agent.heap.strings@.len() + 2 < u32::MAX
    &&& agent.heap.errors@.len() + 2 < u32::MAX
    &&& agent.heap.promises@.len() + 2 < u32::MAX
}

/// Queue one call against the generator: make the promise the caller gets,
/// pair it with the resumption completion, and append at the back — strictly
/// first-in, first-out.
pub fn async_generator_enqueue(
    agent: &mut Agent,
    gen: AsyncGenerator,
    completion: AsyncGeneratorRequestCompletion,
) -> (r: PromiseCapability)
    requires
        old(agent).heap.async_generators.valid(gen.0),
        old(agent).heap.async_generators.spec_get(gen.0).async_generator_state is Some,
        old(agent).heap.promises@.len() < u32::MAX,
    ensures
        final(agent).heap.async_generators.valid(gen.0),
        final(agent).heap.async_generators.spec_get(gen.0).async_generator_state is Some,
        final(agent).heap.promises.valid(r.promise),
        r.promise.index() == old(agent).heap.promises@.len(),
        final(agent).execution_context_stack == old(agent).execution_context_stack,
        final(agent).globals == old(agent).globals,
        final(agent).weak_refs == old(agent).weak_refs,
        final(agent).realm == old(agent).realm,
        !r.must_be_unresolved,
        final(agent).heap.promises.spec_get(r.promise).promise_state is Pending,
        gen.spec_state(*final(agent)).spec_queue() == gen.spec_state(*old(agent)).spec_queue().push(
            AsyncGeneratorRequest { completion, capability: r },
        ),
        states_agree(gen.spec_state(*old(agent)), gen.spec_state(*final(agent))),
        final(agent).heap.promises@.len() == old(agent).heap.promises@.len() + 1,
        final(agent).heap == (Heap {
            async_generators: final(agent).heap.async_generators,
            promises: final(agent).heap.promises,
            ..old(agent).heap
        }),
        final(agent).heap.async_generators.spec_get(gen.0).executable == old(agent).heap.async_generators.spec_get(gen.0).executable,
        queue_requests_ok(*old(agent), gen.spec_state(*old(agent)).spec_queue())
            ==> queue_requests_ok(*final(agent), gen.spec_state(*final(agent)).spec_queue()),
    {
    let created = PromiseCapability::new(agent);
    let capability = PromiseCapability::from_promise(created.promise, false);
    let request = AsyncGeneratorRequest { completion, capability };
    gen.append_to_queue(agent, request);
    capability
}

/// Pop the front request and settle its promise: with the iterator result
/// `{ value, done }` when `result` is a value, or rejected when it is an
/// exception.
pub fn async_generator_complete_step(
    agent: &mut Agent,
    gen: AsyncGenerator,
    result: Result<Value, JsError>,
    done: bool,
)
    requires
        old(agent).heap.async_generators.valid(gen.0),
        old(agent).heap.async_generators.spec_get(gen.0).async_generator_state is Some,
        gen.spec_state(*old(agent)).spec_queue().len() > 0,
        queue_requests_ok(*old(agent), gen.spec_state(*old(agent)).spec_queue()),
        old(agent).heap.objects@.len() < u32::MAX,
    ensures
        final(agent).heap.async_generators.valid(gen.0),
        final(agent).heap.async_generators.spec_get(gen.0).async_generator_state is Some,
        gen.spec_state(*final(agent)).spec_queue() == gen.spec_state(
            *old(agent),
        ).spec_queue().drop_first(),
        states_agree(gen.spec_state(*old(agent)), gen.spec_state(*final(agent))),
        queue_requests_ok(*final(agent), gen.spec_state(*final(agent)).spec_queue()),
        final(agent).heap == (Heap {
            async_generators: final(agent).heap.async_generators,
            objects: final(agent).heap.objects,
            promises: final(agent).heap.promises,
            ..old(agent).heap
        }),
        final(agent).heap.promises@.len() == old(agent).heap.promises@.len(),
        old(agent).heap.objects@.len() <= final(agent).heap.objects@.len() <= old(agent).heap.objects@.len() + 1,
        forall|j: int|
            0 <= j < old(agent).heap.objects@.len() ==> #[trigger] final(agent).heap.objects@[j]
                == old(agent).heap.objects@[j],
        final(agent).heap.async_generators.spec_get(gen.0).executable == old(agent).heap.async_generators.spec_get(gen.0).executable,
        final(agent).execution_context_stack == old(agent).execution_context_stack,
        final(agent).globals == old(agent).globals,
        final(agent).weak_refs == old(agent).weak_refs,
        final(agent).realm == old(agent).realm,
        forall|j: int|
            0 <= j < old(agent).heap.promises@.len() && old(agent).heap.promises@[j] is Some
                ==> #[trigger] final(agent).heap.promises@[j] is Some,
        request_settled(*final(agent), gen.spec_state(*old(agent)).spec_queue()[0], result, done),
        // Only the front request's promise settles; every other promise
        // slot is untouched.
        forall|j: int|
            0 <= j < old(agent).heap.promises@.len() && j != gen.spec_state(
                *old(agent),
            ).spec_queue()[0].capability.promise.index() ==> final(agent).heap.promises@[j]
                == old(agent).heap.promises@[j],
{
    let request = gen.pop_first(agent);
    proof {
        assert(gen.spec_state(*old(agent)).spec_queue()[0] == request);
    }
    match result {
        Ok(value) => {
            let obj = crate::generator::create_iter_result_object(agent, value, done);
            request.capability.resolve(agent, Value::Object(obj));
        },
        Err(e) => {
            request.capability.reject(agent, e.value());
        },
    }
}

/// The request's promise was settled as asked: fulfilled with an iterator
/// result carrying the value, or rejected with the exception.
pub open spec fn request_settled(
    post: Agent,
    request: AsyncGeneratorRequest,
    result: Result<Value, JsError>,
    done: bool,
) -> bool {
    match result {
        Ok(value) => post.heap.promises.spec_get(request.capability.promise).promise_state
            matches crate::promise::PromiseState::Fulfilled(v) && v matches Value::Object(o)
            && post.heap.objects.valid(o) && crate::generator::iter_result_ok(
            post.heap.objects.spec_get(o),
            value,
            done,
        ),
        Err(e) => post.heap.promises.spec_get(request.capability.promise).promise_state
            matches crate::promise::PromiseState::Rejected(v) && v == e.spec_value(),
    }
}

/// How draining settles one still-pending request: a `next` resolves to the
/// draining value, a queued `return(v)` to its own value, and a queued
/// `throw(e)` rejects.
pub open spec fn spec_drain_settlement(request: AsyncGeneratorRequest, value: Value) -> Result<
    Value,
    JsError,
> {
    match request.completion {
        AsyncGeneratorRequestCompletion::Normal(_) => Ok(value),
        AsyncGeneratorRequestCompletion::Return(v) => Ok(v),
        AsyncGeneratorRequestCompletion::Throw(e) => Err(e),
    }
}

/// Flush a completed generator's remaining queue without running more code:
/// each still-pending request settles to `{ value, done:true }`; a queued
/// `return(v)` settles to its own value, and a queued `throw(e)` rejects.
pub fn async_generator_drain_queue(agent: &mut Agent, gen: AsyncGenerator, value: Value)
    requires
        old(agent).heap.async_generators.valid(gen.0),
        old(agent).heap.async_generators.spec_get(gen.0).async_generator_state is Some,
        queue_requests_ok(*old(agent), gen.spec_state(*old(agent)).spec_queue()),
        old(agent).heap.objects@.len() < u32::MAX - gen.spec_state(*old(agent)).spec_queue().len(),
    ensures
        final(agent).heap.async_generators.valid(gen.0),
        final(agent).heap.async_generators.spec_get(gen.0).async_generator_state is Some,
        gen.spec_state(*final(agent)).spec_queue().len() == 0,
        states_agree(gen.spec_state(*old(agent)), gen.spec_state(*final(agent))),
        // Every drained request's capability was settled, each as its own
        // completion asks.
        forall|i: int|
            0 <= i < gen.spec_state(*old(agent)).spec_queue().len() ==> request_settled(
                *final(agent),
                #[trigger] gen.spec_state(*old(agent)).spec_queue()[i],
                spec_drain_settlement(gen.spec_state(*old(agent)).spec_queue()[i], value),
                true,
            ),
        // Promises outside the drained queue are untouched.
        forall|j: int|
            0 <= j < old(agent).heap.promises@.len() && (forall|i: int|
                0 <= i < gen.spec_state(*old(agent)).spec_queue().len() ==> (#[trigger] gen.spec_state(
                    *old(agent),
                ).spec_queue()[i]).capability.promise.index() != j) ==> #[trigger] final(agent).heap.promises@[j] == old(agent).heap.promises@[j],
        final(agent).heap == (Heap {
            async_generators: final(agent).heap.async_generators,
            objects: final(agent).heap.objects,
            promises: final(agent).heap.promises,
            ..old(agent).heap
        }),
        final(agent).heap.promises@.len() == old(agent).heap.promises@.len(),
        forall|j: int|
            0 <= j < old(agent).heap.promises@.len() && old(agent).heap.promises@[j] is Some
                ==> #[trigger] final(agent).heap.promises@[j] is Some,
        final(agent).heap.objects@.len() >= old(agent).heap.objects@.len(),
        forall|j: int|
            0 <= j < old(agent).heap.objects@.len() ==> #[trigger] final(agent).heap.objects@[j]
                == old(agent).heap.objects@[j],
        final(agent).heap.async_generators.spec_get(gen.0).executable == old(agent).heap.async_generators.spec_get(gen.0).executable,
        final(agent).execution_context_stack == old(agent).execution_context_stack,
        final(agent).globals == old(agent).globals,
        final(agent).weak_refs == old(agent).weak_refs,
        final(agent).realm == old(agent).realm,
{
    let ghost q0 = gen.spec_state(*old(agent)).spec_queue();
    let ghost mut processed: int = 0;
    loop
        invariant
            agent.heap.async_generators.valid(gen.0),
            agent.heap.async_generators.spec_get(gen.0).async_generator_state is Some,
            0 <= processed <= q0.len(),
            q0 == gen.spec_state(*old(agent)).spec_queue(),
            gen.spec_state(*agent).spec_queue() == q0.skip(processed),
            queue_requests_ok(*old(agent), q0),
            queue_requests_ok(*agent, gen.spec_state(*agent).spec_queue()),
            states_agree(gen.spec_state(*old(agent)), gen.spec_state(*agent)),
            forall|i: int|
                0 <= i < processed ==> request_settled(
                    *agent,
                    #[trigger] q0[i],
                    spec_drain_settlement(q0[i], value),
                    true,
                ),
            forall|j: int|
                0 <= j < old(agent).heap.promises@.len() && (forall|i: int|
                    0 <= i < q0.len() ==> (#[trigger] q0[i]).capability.promise.index() != j)
                    ==> #[trigger] agent.heap.promises@[j] == old(agent).heap.promises@[j],
            agent.heap.objects@.len() < u32::MAX - gen.spec_state(*agent).spec_queue().len(),
            agent.heap.objects@.len() >= old(agent).heap.objects@.len(),
            forall|j: int|
                0 <= j < old(agent).heap.objects@.len() ==> #[trigger] agent.heap.objects@[j]
                    == old(agent).heap.objects@[j],
            agent.heap == (Heap {
                async_generators: agent.heap.async_generators,
                objects: agent.heap.objects,
                promises: agent.heap.promises,
                ..old(agent).heap
            }),
            agent.heap.promises@.len() == old(agent).heap.promises@.len(),
            forall|j: int|
                0 <= j < old(agent).heap.promises@.len() && old(agent).heap.promises@[j] is Some
                    ==> #[trigger] agent.heap.promises@[j] is Some,
            agent.heap.async_generators.spec_get(gen.0).executable == old(agent).heap.async_generators.spec_get(gen.0).executable,
            agent.execution_context_stack == old(agent).execution_context_stack,
            agent.globals == old(agent).globals,
            agent.weak_refs == old(agent).weak_refs,
            agent.realm == old(agent).realm,
        decreases gen.spec_state(*agent).spec_queue().len(),
    {
        if gen.queue_is_empty(agent) {
            proof {
                assert(q0.skip(processed).len() == 0);
                assert(processed == q0.len());
            }
            return ;
        }
        let ghost pre_loop_agent = *agent;
        let request = gen.peek_first(agent);
        proof {
            assert(gen.spec_state(*agent).spec_queue()[0] == q0[processed]);
        }
        let settle: Result<Value, JsError> = match request.completion {
            AsyncGeneratorRequestCompletion::Normal(_) => Ok(value),
            AsyncGeneratorRequestCompletion::Return(v) => Ok(v),
            AsyncGeneratorRequestCompletion::Throw(e) => Err(e),
        };
        async_generator_complete_step(agent, gen, settle, true);
        proof {
            assert(gen.spec_state(*agent).spec_queue() =~= q0.skip(processed + 1));
            // The settled request keeps its settlement through later steps:
            // every queued promise is distinct.
            assert forall|i: int| 0 <= i < processed + 1 implies request_settled(
                *agent,
                #[trigger] q0[i],
                spec_drain_settlement(q0[i], value),
                true,
            ) by {
                if i < processed {
                    assert(q0[i].capability.promise.index()
                        != q0[processed].capability.promise.index());
                    let pidx = q0[i].capability.promise.index() as int;
                    assert(agent.heap.promises@[pidx] == pre_loop_agent.heap.promises@[pidx]);
                    assert(request_settled(
                        pre_loop_agent,
                        q0[i],
                        spec_drain_settlement(q0[i], value),
                        true,
                    ));
                    match spec_drain_settlement(q0[i], value) {
                        Ok(_) => {
                            match pre_loop_agent.heap.promises.spec_get(
                                q0[i].capability.promise,
                            ).promise_state {
                                crate::promise::PromiseState::Fulfilled(v) => {
                                    match v {
                                        Value::Object(o) => {
                                            assert(agent.heap.objects@[o.index() as int]
                                                == pre_loop_agent.heap.objects@[o.index() as int]);
                                        },
                                        _ => {},
                                    }
                                },
                                _ => {},
                            }
                        },
                        Err(_) => {},
                    }
                }
            }
            processed = processed + 1;
        }
    }
}

/// The parked snapshot of a suspended machine.
pub open spec fn spec_suspended_vm(s: AsyncGeneratorState) -> SuspendedVm {
    match s {
        AsyncGeneratorState::SuspendedStart { vm, .. } => vm,
        AsyncGeneratorState::SuspendedYield { vm, .. } => vm,
        AsyncGeneratorState::ExecutingAwait { vm, .. } => vm,
        _ => vstd::pervasive::arbitrary(),
    }
}

/// The saved frame of a suspended machine.
pub open spec fn spec_suspended_context(s: AsyncGeneratorState) -> ExecutionContext {
    match s {
        AsyncGeneratorState::SuspendedStart { execution_context, .. } => execution_context,
        AsyncGeneratorState::SuspendedYield { execution_context, .. } => execution_context,
        AsyncGeneratorState::ExecutingAwait { execution_context, .. } => execution_context,
        _ => vstd::pervasive::arbitrary(),
    }
}

/// The machine state a queued `next(v)` resumes a suspended machine to: a
/// machine at its start ignores the value, one parked after a yield receives
/// it at the suspension point.
pub open spec fn spec_resume_injection(s: AsyncGeneratorState, v: Value) -> crate::vm::MachineState {
    match s {
        AsyncGeneratorState::SuspendedStart { vm, .. } => vm.resumed_state(Value::Undefined),
        AsyncGeneratorState::SuspendedYield { vm, .. } => vm.resumed_state(v),
        _ => vstd::pervasive::arbitrary(),
    }
}

/// The request's promise was rejected with the given value.
pub open spec fn request_rejected(post: Agent, request: AsyncGeneratorRequest, v: Value) -> bool {
    post.heap.promises.spec_get(request.capability.promise).promise_state
        matches crate::promise::PromiseState::Rejected(w) && w == v
}

/// What dispatching one machine outcome leaves behind: a suspension parks
/// the snapshot with the saved frame and an untouched queue; a completion
/// settles the serviced front request with the outcome and flushes the rest
/// to `done` results.
pub open spec fn spec_outcome_handled(
    pre_queue: Seq<AsyncGeneratorRequest>,
    saved_context: ExecutionContext,
    post: Agent,
    gen: AsyncGenerator,
    outcome: crate::vm::SpecOutcome,
) -> bool {
    match outcome {
        crate::vm::SpecOutcome::Yield(vm_state, _) => gen.spec_state(post)
            matches AsyncGeneratorState::ExecutingAwait { vm, execution_context, kind, queue }
            && vm.state() == vm_state && execution_context == saved_context && kind
            == AsyncGeneratorAwaitKind::Yield && queue@ == pre_queue,
        crate::vm::SpecOutcome::Await(vm_state, _) => gen.spec_state(post)
            matches AsyncGeneratorState::ExecutingAwait { vm, execution_context, kind, queue }
            && vm.state() == vm_state && execution_context == saved_context && kind
            == AsyncGeneratorAwaitKind::Await && queue@ == pre_queue,
        crate::vm::SpecOutcome::Return(v) => (gen.spec_state(post)
            matches AsyncGeneratorState::Completed(q) && q@.len() == 0) && (pre_queue.len() > 0
            ==> request_settled(post, pre_queue[0], Ok(v), true) && (forall|i: int|
            1 <= i < pre_queue.len() ==> request_settled(
                post,
                #[trigger] pre_queue[i],
                spec_drain_settlement(pre_queue[i], v),
                true,
            ))),
        crate::vm::SpecOutcome::Throw(v) => (gen.spec_state(post)
            matches AsyncGeneratorState::Completed(q) && q@.len() == 0) && (pre_queue.len() > 0
            ==> request_rejected(post, pre_queue[0], v) && (forall|i: int|
            1 <= i < pre_queue.len() ==> request_settled(
                post,
                #[trigger] pre_queue[i],
                spec_drain_settlement(pre_queue[i], Value::Undefined),
                true,
            ))),
    }
}

/// Resume a suspended machine with a queued completion: check the snapshot
/// out, run the body (or, for a `return` completion, park on the implicit
/// return await), and dispatch on how the body stopped.
pub fn async_generator_resume(
    agent: &mut Agent,
    gen: AsyncGenerator,
    completion: AsyncGeneratorRequestCompletion,
)
    requires
        async_generator_servicing_ok(*old(agent), gen),
        (gen.spec_state(*old(agent)) matches AsyncGeneratorState::SuspendedStart { .. }
            || gen.spec_state(*old(agent)) matches AsyncGeneratorState::SuspendedYield { .. }),
        gen.spec_state(*old(agent)).spec_queue().len() > 0,
    ensures
        final(agent).heap.async_generators.valid(gen.0),
        final(agent).heap.async_generators.spec_get(gen.0).async_generator_state is Some,
        final(agent).execution_context_stack@ == old(agent).execution_context_stack@,
        final(agent).heap.promises@.len() == old(agent).heap.promises@.len(),
        forall|j: int|
            0 <= j < old(agent).heap.promises@.len() && old(agent).heap.promises@[j] is Some
                ==> #[trigger] final(agent).heap.promises@[j] is Some,
        // A `next` runs the body (injecting its value at a yield, nothing at
        // the start) and dispatches the run's outcome.
        (completion matches AsyncGeneratorRequestCompletion::Normal(v) ==> exists|n: nat|
            #[trigger] crate::vm::spec_run(
                old(agent).heap.executables.spec_get(
                    old(agent).heap.async_generators.spec_get(gen.0).executable->Some_0,
                ),
                spec_resume_injection(gen.spec_state(*old(agent)), v),
                n,
            ) matches crate::vm::SpecStep::Done(outcome) && spec_outcome_handled(
                gen.spec_state(*old(agent)).spec_queue(),
                spec_suspended_context(gen.spec_state(*old(agent))),
                *final(agent),
                gen,
                outcome,
            )),
        // A `throw` is injected at the suspension point; with no handler
        // ranges it completes the machine abruptly.
        (completion matches AsyncGeneratorRequestCompletion::Throw(e) ==> spec_outcome_handled(
            gen.spec_state(*old(agent)).spec_queue(),
            spec_suspended_context(gen.spec_state(*old(agent))),
            *final(agent),
            gen,
            crate::vm::SpecOutcome::Throw(e.spec_value()),
        )),
        // A `return` runs no code: the machine parks on the implicit
        // return-kind await of the value.
        (completion matches AsyncGeneratorRequestCompletion::Return(_) ==> (gen.spec_state(
            *final(agent),
        ) matches AsyncGeneratorState::ExecutingAwait { vm, execution_context, kind, queue }
            && vm == spec_suspended_vm(gen.spec_state(*old(agent))) && execution_context
            == spec_suspended_context(gen.spec_state(*old(agent))) && kind
            == AsyncGeneratorAwaitKind::Return && queue@ == gen.spec_state(
            *old(agent),
        ).spec_queue())),
{
    let started = gen.is_suspended_start(agent);
    let (vm, execution_context, executable) = gen.transition_to_executing(agent);
    match completion {
        AsyncGeneratorRequestCompletion::Normal(v) => {
            let inject = if started {
                Value::Undefined
            } else {
                v
            };
            agent.push_execution_context(execution_context);
            let exe_ref = agent.heap.executables.get(executable);
            let ghost exe_data = *exe_ref;
            let result = vm.resume(exe_ref, inject);
            let ghost witness = choose|n: nat|
                crate::vm::spec_run(exe_data, vm.resumed_state(inject), n)
                    == crate::vm::SpecStep::Done(crate::vm::spec_outcome_of(result));
            resume_handle_result(agent, result, gen);
            proof {
                assert(vm.resumed_state(inject) == spec_resume_injection(
                    gen.spec_state(*old(agent)),
                    v,
                ));
                assert(crate::vm::spec_run(exe_data, vm.resumed_state(inject), witness)
                    == crate::vm::SpecStep::Done(crate::vm::spec_outcome_of(result)));
            }
        },
        AsyncGeneratorRequestCompletion::Throw(e) => {
            agent.push_execution_context(execution_context);
            let exe_ref = agent.heap.executables.get(executable);
            let result = vm.resume_throw(exe_ref, e.value());
            resume_handle_result(agent, result, gen);
        },
        AsyncGeneratorRequestCompletion::Return(_) => {
            gen.transition_to_awaiting(
                agent,
                vm,
                AsyncGeneratorAwaitKind::Return,
                execution_context,
            );
        },
    }
}

/// Dispatch on how an executing body stopped: park on a suspension —
/// reinstating the frame that was pushed for the run into the parked state —
/// or complete, settle the serviced request, and flush the rest.
pub fn resume_handle_result(agent: &mut Agent, result: crate::vm::ExecutionResult, gen: AsyncGenerator)
    requires
        old(agent).heap.async_generators.valid(gen.0),
        old(agent).heap.async_generators.spec_get(gen.0).async_generator_state is Some,
        gen.spec_state(*old(agent)) matches AsyncGeneratorState::Executing(_),
        queue_requests_ok(*old(agent), gen.spec_state(*old(agent)).spec_queue()),
        old(agent).heap.objects@.len() + gen.spec_state(*old(agent)).spec_queue().len() + 2
            < u32::MAX,
        // The frame pushed for the resumed run is on the stack.
        old(agent).execution_context_stack@.len() > 0,
    ensures
        final(agent).heap.async_generators.valid(gen.0),
        final(agent).heap.async_generators.spec_get(gen.0).async_generator_state is Some,
        // The run's frame comes off the stack: parked into the suspension,
        // or discarded on completion.
        final(agent).execution_context_stack@ == old(agent).execution_context_stack@.drop_last(),
        (result matches crate::vm::ExecutionResult::Yield { vm, .. } ==> (gen.spec_state(
            *final(agent),
        ) matches AsyncGeneratorState::ExecutingAwait { vm: v, execution_context, kind, queue }
            && v == vm && execution_context == old(agent).execution_context_stack@.last() && kind
            == AsyncGeneratorAwaitKind::Yield && queue@ == gen.spec_state(
            *old(agent),
        ).spec_queue())),
        (result matches crate::vm::ExecutionResult::Await { vm, .. } ==> (gen.spec_state(
            *final(agent),
        ) matches AsyncGeneratorState::ExecutingAwait { vm: v, execution_context, kind, queue }
            && v == vm && execution_context == old(agent).execution_context_stack@.last() && kind
            == AsyncGeneratorAwaitKind::Await && queue@ == gen.spec_state(
            *old(agent),
        ).spec_queue())),
        // A completion settles the serviced (front) request with its own
        // outcome and flushes the remaining queue to `done` results.
        (result matches crate::vm::ExecutionResult::Return(v) ==> (gen.spec_state(
            *final(agent),
        ) matches AsyncGeneratorState::Completed(q) && q@.len() == 0) && ({
            let q0 = gen.spec_state(*old(agent)).spec_queue();
            q0.len() > 0 ==> request_settled(*final(agent), q0[0], Ok(v), true) && (forall|i: int|
                1 <= i < q0.len() ==> request_settled(
                    *final(agent),
                    #[trigger] q0[i],
                    spec_drain_settlement(q0[i], v),
                    true,
                ))
        })),
        (result matches crate::vm::ExecutionResult::Throw(e) ==> (gen.spec_state(
            *final(agent),
        ) matches AsyncGeneratorState::Completed(q) && q@.len() == 0) && ({
            let q0 = gen.spec_state(*old(agent)).spec_queue();
            q0.len() > 0 ==> request_settled(*final(agent), q0[0], Err(e), true) && (forall|i: int|
                1 <= i < q0.len() ==> request_settled(
                    *final(agent),
                    #[trigger] q0[i],
                    spec_drain_settlement(q0[i], Value::Undefined),
                    true,
                ))
        })),
        // Only the queued requests' promises can settle; every other promise
        // slot, and every already-allocated object, is untouched.
        final(agent).heap.promises@.len() == old(agent).heap.promises@.len(),
        forall|j: int|
            0 <= j < old(agent).heap.promises@.len() && old(agent).heap.promises@[j] is Some
                ==> #[trigger] final(agent).heap.promises@[j] is Some,

        forall|j: int|
            0 <= j < old(agent).heap.promises@.len() && (forall|i: int|
                0 <= i < gen.spec_state(*old(agent)).spec_queue().len() ==> (#[trigger] gen.spec_state(
                    *old(agent),
                ).spec_queue()[i]).capability.promise.index() != j) ==> #[trigger] final(agent).heap.promises@[j] == old(agent).heap.promises@[j],
        final(agent).heap.objects@.len() >= old(agent).heap.objects@.len(),
        forall|j: int|
            0 <= j < old(agent).heap.objects@.len() ==> #[trigger] final(agent).heap.objects@[j]
                == old(agent).heap.objects@[j],
{
    let execution_context = match agent.pop_execution_context() {
        Some(frame) => frame,
        None => {
            proof {
                assert(false);
            }
            vstd::pervasive::unreached()
        },
    };
    let ghost q0 = gen.spec_state(*old(agent)).spec_queue();
    match result {
        crate::vm::ExecutionResult::Yield { vm, yielded_value: _ } => {
            // The yield's implicit await: the value settles through the
            // reaction scheduler before the yield is delivered.
            gen.transition_to_awaiting(agent, vm, AsyncGeneratorAwaitKind::Yield, execution_context);
        },
        crate::vm::ExecutionResult::Await { vm, awaited_value: _ } => {
            gen.transition_to_awaiting(agent, vm, AsyncGeneratorAwaitKind::Await, execution_context);
        },
        crate::vm::ExecutionResult::Return(v) => {
            gen.transition_to_complete(agent);
            if !gen.queue_is_empty(agent) {
                let ghost pre_settle = *agent;
                async_generator_complete_step(agent, gen, Ok(v), true);
                proof {
                    assert(gen.spec_state(*agent).spec_queue() =~= q0.drop_first());
                }
                let ghost pre_drain = *agent;
                async_generator_drain_queue(agent, gen, v);
                proof {
                    lemma_first_request_untouched_by_drain(pre_drain, *agent, q0);
                    request_settled_carries(pre_drain, *agent, q0[0], Ok(v), true);
                    assert forall|i: int| 1 <= i < q0.len() implies request_settled(
                        *agent,
                        #[trigger] q0[i],
                        spec_drain_settlement(q0[i], v),
                        true,
                    ) by {
                        assert(q0.drop_first()[i - 1] == q0[i]);
                    }
                }
            }
        },
        crate::vm::ExecutionResult::Throw(e) => {
            gen.transition_to_complete(agent);
            if !gen.queue_is_empty(agent) {
                let ghost pre_settle = *agent;
                async_generator_complete_step(agent, gen, Err(e), true);
                proof {
                    assert(gen.spec_state(*agent).spec_queue() =~= q0.drop_first());
                }
                let ghost pre_drain = *agent;
                async_generator_drain_queue(agent, gen, Value::Undefined);
                proof {
                    lemma_first_request_untouched_by_drain(pre_drain, *agent, q0);
                    request_settled_carries(pre_drain, *agent, q0[0], Err(e), true);
                    assert forall|i: int| 1 <= i < q0.len() implies request_settled(
                        *agent,
                        #[trigger] q0[i],
                        spec_drain_settlement(q0[i], Value::Undefined),
                        true,
                    ) by {
                        assert(q0.drop_first()[i - 1] == q0[i]);
                    }
                }
            }
        },
    }
}

/// After draining the tail of a distinct-promise queue, the front request's
/// promise slot is untouched.
proof fn lemma_first_request_untouched_by_drain(
    pre_drain: Agent,
    post: Agent,
    q0: Seq<AsyncGeneratorRequest>,
)
    requires
        q0.len() > 0,
        forall|i: int, j: int|
            0 <= i < j < q0.len() ==> (#[trigger] q0[i]).capability.promise.index() != (
            #[trigger] q0[j]).capability.promise.index(),
        q0[0].capability.promise.index() < pre_drain.heap.promises@.len(),
        forall|j: int|
            0 <= j < pre_drain.heap.promises@.len() && (forall|i: int|
                0 <= i < q0.drop_first().len() ==> (#[trigger] q0.drop_first()[i]).capability.promise.index()
                    != j) ==> #[trigger] post.heap.promises@[j] == pre_drain.heap.promises@[j],
    ensures
        post.heap.promises@[q0[0].capability.promise.index() as int]
            == pre_drain.heap.promises@[q0[0].capability.promise.index() as int],
{
    let pidx = q0[0].capability.promise.index() as int;
    assert forall|i: int|
        0 <= i < q0.drop_first().len() implies (#[trigger] q0.drop_first()[i]).capability.promise.index()
        != pidx by {
        assert(q0.drop_first()[i] == q0[i + 1]);
    }
}

/// A request's settlement survives later steps that leave its promise slot
/// and the already-allocated objects untouched.
proof fn request_settled_carries(
    pre: Agent,
    post: Agent,
    request: AsyncGeneratorRequest,
    result: Result<Value, JsError>,
    done: bool,
)
    requires
        request.capability.promise.index() < pre.heap.promises@.len(),
        post.heap.promises@.len() >= pre.heap.promises@.len(),
        post.heap.promises@[request.capability.promise.index() as int]
            == pre.heap.promises@[request.capability.promise.index() as int],
        post.heap.objects@.len() >= pre.heap.objects@.len(),
        forall|j: int|
            0 <= j < pre.heap.objects@.len() ==> #[trigger] post.heap.objects@[j]
                == pre.heap.objects@[j],
        request_settled(pre, request, result, done),
    ensures
        request_settled(post, request, result, done),
{
    match result {
        Ok(_) => {
            match pre.heap.promises.spec_get(request.capability.promise).promise_state {
                crate::promise::PromiseState::Fulfilled(v) => {
                    match v {
                        Value::Object(o) => {
                            assert(post.heap.objects@[o.index() as int]
                                == pre.heap.objects@[o.index() as int]);
                        },
                        _ => {},
                    }
                },
                _ => {},
            }
        },
        Err(_) => {},
    }
}

/// Deliver a yield whose implicit await settled: resolve the front request
/// with `{ value, done:false }`, then park after the yield — or, when more
/// calls queued meanwhile, service the next one immediately. The run's frame
/// comes off the stack, parked into whatever state the machine lands in.
pub fn async_generator_yield(agent: &mut Agent, value: Value, gen: AsyncGenerator, vm: SuspendedVm)
    requires
        async_generator_servicing_ok(*old(agent), gen),
        gen.spec_state(*old(agent)) matches AsyncGeneratorState::Executing(_),
        gen.spec_state(*old(agent)).spec_queue().len() > 0,
        old(agent).execution_context_stack@.len() > 0,
    ensures
        final(agent).heap.async_generators.valid(gen.0),
        final(agent).heap.async_generators.spec_get(gen.0).async_generator_state is Some,
        final(agent).execution_context_stack@ == old(agent).execution_context_stack@.drop_last(),
        // The yield is delivered: the front request resolves with
        // `{ value, done:false }`.
        request_settled(
            *final(agent),
            gen.spec_state(*old(agent)).spec_queue()[0],
            Ok(value),
            false,
        ),
        // With nothing else queued, the machine parks after its yield; a
        // queued `next`/`throw` is serviced against the body at once, and a
        // queued `return` parks on the implicit return-kind await.
        ({
            let rest = gen.spec_state(*old(agent)).spec_queue().drop_first();
            let saved = old(agent).execution_context_stack@.last();
            if rest.len() == 0 {
                gen.spec_state(*final(agent)) matches AsyncGeneratorState::SuspendedYield {
                    vm: v2,
                    execution_context,
                    queue,
                } && v2 == vm && execution_context == saved && queue@.len() == 0
            } else {
                match rest[0].completion {
                    AsyncGeneratorRequestCompletion::Normal(v) => exists|n: nat|
                        #[trigger] crate::vm::spec_run(
                            old(agent).heap.executables.spec_get(
                                old(agent).heap.async_generators.spec_get(gen.0).executable->Some_0,
                            ),
                            vm.resumed_state(v),
                            n,
                        ) matches crate::vm::SpecStep::Done(outcome) && spec_outcome_handled(
                            rest,
                            saved,
                            *final(agent),
                            gen,
                            outcome,
                        ),
                    AsyncGeneratorRequestCompletion::Throw(e) => spec_outcome_handled(
                        rest,
                        saved,
                        *final(agent),
                        gen,
                        crate::vm::SpecOutcome::Throw(e.spec_value()),
                    ),
                    AsyncGeneratorRequestCompletion::Return(_) => gen.spec_state(*final(agent))
                        matches AsyncGeneratorState::ExecutingAwait {
                        vm: v2,
                        execution_context,
                        kind,
                        queue,
                    } && v2 == vm && execution_context == saved && kind
                        == AsyncGeneratorAwaitKind::Return && queue@ == rest,
                }
            }
        }),
{
    let ghost q0 = gen.spec_state(*old(agent)).spec_queue();
    async_generator_complete_step(agent, gen, Ok(value), false);
    let ghost settled_agent = *agent;
    if gen.queue_is_empty(agent) {
        let execution_context = match agent.pop_execution_context() {
            Some(frame) => frame,
            None => {
                proof {
                    assert(false);
                }
                vstd::pervasive::unreached()
            },
        };
        gen.transition_to_suspended(agent, vm, execution_context);
        proof {
            request_settled_carries(settled_agent, *agent, q0[0], Ok(value), false);
        }
        return ;
    }
    let request = gen.peek_first(agent);
    proof {
        assert(gen.spec_state(*agent).spec_queue() =~= q0.drop_first());
    }
    match request.completion {
        AsyncGeneratorRequestCompletion::Normal(v) => {
            let executable = gen.get_executable(agent);
            let exe_ref = agent.heap.executables.get(executable);
            let ghost exe_data = *exe_ref;
            let result = vm.resume(exe_ref, v);
            let ghost witness = choose|n: nat|
                crate::vm::spec_run(exe_data, vm.resumed_state(v), n)
                    == crate::vm::SpecStep::Done(crate::vm::spec_outcome_of(result));
            resume_handle_result(agent, result, gen);
            proof {
                assert(crate::vm::spec_run(exe_data, vm.resumed_state(v), witness)
                    == crate::vm::SpecStep::Done(crate::vm::spec_outcome_of(result)));
                carry_first_through_handling(settled_agent, *agent, q0, value);
            }
        },
        AsyncGeneratorRequestCompletion::Throw(e) => {
            let executable = gen.get_executable(agent);
            let exe_ref = agent.heap.executables.get(executable);
            let result = vm.resume_throw(exe_ref, e.value());
            resume_handle_result(agent, result, gen);
            proof {
                carry_first_through_handling(settled_agent, *agent, q0, value);
            }
        },
        AsyncGeneratorRequestCompletion::Return(_) => {
            let execution_context = match agent.pop_execution_context() {
                Some(frame) => frame,
                None => {
                    proof {
                        assert(false);
                    }
                    vstd::pervasive::unreached()
                },
            };
            gen.transition_to_awaiting(
                agent,
                vm,
                AsyncGeneratorAwaitKind::Return,
                execution_context,
            );
            proof {
                request_settled_carries(settled_agent, *agent, q0[0], Ok(value), false);
            }
        },
    }
}

/// After the serviced continuation, the already-delivered yield keeps its
/// settlement: the continuation touches only the remaining queue's promises,
/// all distinct from the delivered one.
proof fn carry_first_through_handling(
    settled_agent: Agent,
    post: Agent,
    q0: Seq<AsyncGeneratorRequest>,
    value: Value,
)
    requires
        q0.len() > 0,
        forall|i: int, j: int|
            0 <= i < j < q0.len() ==> (#[trigger] q0[i]).capability.promise.index() != (
            #[trigger] q0[j]).capability.promise.index(),
        q0[0].capability.promise.index() < settled_agent.heap.promises@.len(),
        post.heap.promises@.len() >= settled_agent.heap.promises@.len(),
        forall|j: int|
            0 <= j < settled_agent.heap.promises@.len() && (forall|i: int|
                0 <= i < q0.drop_first().len() ==> (#[trigger] q0.drop_first()[i]).capability.promise.index()
                    != j) ==> #[trigger] post.heap.promises@[j]
                == settled_agent.heap.promises@[j],
        post.heap.objects@.len() >= settled_agent.heap.objects@.len(),
        forall|j: int|
            0 <= j < settled_agent.heap.objects@.len() ==> #[trigger] post.heap.objects@[j]
                == settled_agent.heap.objects@[j],
        request_settled(settled_agent, q0[0], Ok(value), false),
    ensures
        request_settled(post, q0[0], Ok(value), false),
{
    lemma_first_request_untouched_by_drain(settled_agent, post, q0);
    request_settled_carries(settled_agent, post, q0[0], Ok(value), false);
}

/// The draining return's await fulfilled: resolve the front request with
/// `{ value, done:true }`, flush what remains, and complete.
pub fn async_generator_await_return_on_fulfilled(
    agent: &mut Agent,
    gen: AsyncGenerator,
    value: Value,
)
    requires
        async_generator_ready(*old(agent), gen),
        gen.spec_state(*old(agent)) matches AsyncGeneratorState::DrainingQueue(_),
        gen.spec_state(*old(agent)).spec_queue().len() > 0,
    ensures
        final(agent).heap.async_generators.valid(gen.0),
        final(agent).heap.async_generators.spec_get(gen.0).async_generator_state is Some,
        gen.spec_state(*final(agent)) matches AsyncGeneratorState::Completed(q) && q@.len() == 0,
        final(agent).execution_context_stack == old(agent).execution_context_stack,
{
    async_generator_complete_step(agent, gen, Ok(value), true);
    async_generator_drain_queue(agent, gen, value);
    gen.transition_to_complete(agent);
}

/// The draining return's await rejected: reject the front request, flush
/// what remains, and complete.
pub fn async_generator_await_return_on_rejected(
    agent: &mut Agent,
    gen: AsyncGenerator,
    value: Value,
)
    requires
        async_generator_ready(*old(agent), gen),
        gen.spec_state(*old(agent)) matches AsyncGeneratorState::DrainingQueue(_),
        gen.spec_state(*old(agent)).spec_queue().len() > 0,
    ensures
        final(agent).heap.async_generators.valid(gen.0),
        final(agent).heap.async_generators.spec_get(gen.0).async_generator_state is Some,
        gen.spec_state(*final(agent)) matches AsyncGeneratorState::Completed(q) && q@.len() == 0,
        final(agent).execution_context_stack == old(agent).execution_context_stack,
{
    async_generator_complete_step(agent, gen, Err(JsError::new(value)), true);
    async_generator_drain_queue(agent, gen, Value::Undefined);
    gen.transition_to_complete(agent);
}

impl AsyncGenerator {
    /// A promise the machine awaited has settled; the reaction scheduler
    /// calls back in with the outcome.
    ///
    /// While draining, the settlement always routes to the return-unwrapping
    /// path, whatever kind of await was outstanding. Otherwise the machine is
    /// parked on an internal await (or after a yield whose await is being
    /// delivered): a rejection during a `Yield`-kind await throws into the
    /// body rather than yielding, per the implicit-await-wraps-yield rule; a
    /// `Return`-kind fulfilment becomes the body's return completion without
    /// running more code.
    pub fn resume_await(
        self,
        agent: &mut Agent,
        reaction_type: PromiseReactionType,
        value: Value,
    )
        requires
            async_generator_ready(*old(agent), self),
            (match self.spec_state(*old(agent)) {
                AsyncGeneratorState::DrainingQueue(q) => q@.len() > 0,
                AsyncGeneratorState::SuspendedYield { queue, .. } => queue@.len() > 0,
                AsyncGeneratorState::ExecutingAwait { queue, kind, .. } => kind
                    != AsyncGeneratorAwaitKind::Await ==> queue@.len() > 0,
                _ => false,
            }),
        ensures
            final(agent).heap.async_generators.valid(self.0),
            final(agent).heap.async_generators.spec_get(self.0).async_generator_state is Some,
            final(agent).execution_context_stack@ == old(agent).execution_context_stack@,
            (self.spec_state(*old(agent)) matches AsyncGeneratorState::DrainingQueue(_)
                ==> (self.spec_state(*final(agent)) matches AsyncGeneratorState::Completed(q)
                && q@.len() == 0)),
            // A plain await that fulfils resumes the body with the value;
            // what the machine does next is what the small-step semantics of
            // the compiled form says.
            ((self.spec_state(*old(agent)) matches AsyncGeneratorState::ExecutingAwait {
                kind: AsyncGeneratorAwaitKind::Await,
                ..
            } && reaction_type == PromiseReactionType::Fulfill) ==> exists|n: nat|
                #[trigger] crate::vm::spec_run(
                    old(agent).heap.executables.spec_get(
                        old(agent).heap.async_generators.spec_get(self.0).executable->Some_0,
                    ),
                    spec_awaited_resume_state(self.spec_state(*old(agent)), value),
                    n,
                ) matches crate::vm::SpecStep::Done(outcome) && spec_outcome_handled(
                    self.spec_state(*old(agent)).spec_queue(),
                    spec_suspended_context(self.spec_state(*old(agent))),
                    *final(agent),
                    self,
                    outcome,
                )),
            // A plain await that rejects throws into the body; with no
            // handler ranges the machine completes abruptly.
            ((self.spec_state(*old(agent)) matches AsyncGeneratorState::ExecutingAwait {
                kind: AsyncGeneratorAwaitKind::Await,
                ..
            } && reaction_type == PromiseReactionType::Reject) ==> spec_outcome_handled(
                self.spec_state(*old(agent)).spec_queue(),
                spec_suspended_context(self.spec_state(*old(agent))),
                *final(agent),
                self,
                crate::vm::SpecOutcome::Throw(value),
            )),
            // `? Yield ( ? Await ( value ) )`: a rejection during the
            // yield's implicit await is thrown into the body — the yield is
            // never performed.
            ((spec_parked_on_yield(self.spec_state(*old(agent))) && reaction_type
                == PromiseReactionType::Reject) ==> spec_outcome_handled(
                self.spec_state(*old(agent)).spec_queue(),
                spec_suspended_context(self.spec_state(*old(agent))),
                *final(agent),
                self,
                crate::vm::SpecOutcome::Throw(value),
            )),
            // A fulfilled yield-kind await delivers the yield: the front
            // request resolves with `{ value, done:false }` and the machine
            // parks after the yield or services the next queued call.
            ((spec_parked_on_yield(self.spec_state(*old(agent))) && reaction_type
                == PromiseReactionType::Fulfill) ==> request_settled(
                *final(agent),
                self.spec_state(*old(agent)).spec_queue()[0],
                Ok(value),
                false,
            )),
            // A fulfilled return-kind await runs no more code: the awaited
            // value becomes the body's return completion — the front request
            // resolves `{ value, done:true }` and the machine completes,
            // flushing the rest.
            ((self.spec_state(*old(agent)) matches AsyncGeneratorState::ExecutingAwait {
                kind: AsyncGeneratorAwaitKind::Return,
                ..
            } && reaction_type == PromiseReactionType::Fulfill) ==> spec_outcome_handled(
                self.spec_state(*old(agent)).spec_queue(),
                spec_suspended_context(self.spec_state(*old(agent))),
                *final(agent),
                self,
                crate::vm::SpecOutcome::Return(value),
            )),
            // A rejected return-kind await is thrown into the body.
            ((self.spec_state(*old(agent)) matches AsyncGeneratorState::ExecutingAwait {
                kind: AsyncGeneratorAwaitKind::Return,
                ..
            } && reaction_type == PromiseReactionType::Reject) ==> spec_outcome_handled(
                self.spec_state(*old(agent)).spec_queue(),
                spec_suspended_context(self.spec_state(*old(agent))),
                *final(agent),
                self,
                crate::vm::SpecOutcome::Throw(value),
            )),
    {
        if self.is_draining_queue(agent) {
            match reaction_type {
                PromiseReactionType::Fulfill => {
                    async_generator_await_return_on_fulfilled(agent, self, value);
                },
                PromiseReactionType::Reject => {
                    async_generator_await_return_on_rejected(agent, self, value);
                },
            }
            return ;
        }
        let record = agent.heap.async_generators.get_mut(self.0);
        let mut state: Option<AsyncGeneratorState> = None;
        core::mem::swap(&mut state, &mut record.async_generator_state);
        let (vm, execution_context, queue, kind) = match state {
            Some(AsyncGeneratorState::SuspendedYield { vm, execution_context, queue }) => (
                vm,
                execution_context,
                queue,
                AsyncGeneratorAwaitKind::Yield,
            ),
            Some(AsyncGeneratorState::ExecutingAwait { vm, execution_context, queue, kind }) => (
                vm,
                execution_context,
                queue,
                kind,
            ),
            _ => {
                proof {
                    assert(false);
                }
                vstd::pervasive::unreached()
            },
        };
        let record = agent.heap.async_generators.get_mut(self.0);
        record.async_generator_state = Some(AsyncGeneratorState::Executing(queue));
        // Reinstate the saved frame for the resumed run; dispatching the
        // outcome takes it back off.
        agent.push_execution_context(execution_context);
        match kind {
            AsyncGeneratorAwaitKind::Await => {
                let executable = self.get_executable(agent);
                let exe_ref = agent.heap.executables.get(executable);
                let ghost exe_data = *exe_ref;
                let result = match reaction_type {
                    PromiseReactionType::Fulfill => vm.resume(exe_ref, value),
                    PromiseReactionType::Reject => vm.resume_throw(exe_ref, value),
                };
                let ghost witness = choose|n: nat|
                    crate::vm::spec_run(exe_data, vm.resumed_state(value), n)
                        == crate::vm::SpecStep::Done(crate::vm::spec_outcome_of(result));
                resume_handle_result(agent, result, self);
                proof {
                    if reaction_type == PromiseReactionType::Fulfill {
                        let s0 = self.spec_state(*old(agent));
                        assert(spec_awaited_resume_state(s0, value) == vm.resumed_state(value));
                        assert(exe_data == old(agent).heap.executables.spec_get(
                            old(agent).heap.async_generators.spec_get(self.0).executable->Some_0,
                        ));
                        assert(crate::vm::spec_run(exe_data, vm.resumed_state(value), witness)
                            == crate::vm::SpecStep::Done(crate::vm::spec_outcome_of(result)));
                    }
                }
            },
            AsyncGeneratorAwaitKind::Yield => {
                if matches!(reaction_type, PromiseReactionType::Reject) {
                    // The yield never happens; the rejection is thrown into
                    // the body.
                    let executable = self.get_executable(agent);
                    let exe_ref = agent.heap.executables.get(executable);
                    let result = vm.resume_throw(exe_ref, value);
                    resume_handle_result(agent, result, self);
                } else {
                    async_generator_yield(agent, value, self, vm);
                }
            },
            AsyncGeneratorAwaitKind::Return => {
                if matches!(reaction_type, PromiseReactionType::Reject) {
                    let executable = self.get_executable(agent);
                    let exe_ref = agent.heap.executables.get(executable);
                    let result = vm.resume_throw(exe_ref, value);
                    resume_handle_result(agent, result, self);
                } else {
                    // The awaited value is delivered as the body's return
                    // completion.
                    let result = crate::vm::ExecutionResult::Return(value);
                    resume_handle_result(agent, result, self);
                }
            },
        }
    }
}

/// Is the machine parked on the implicit await of a yield — either mid-run
/// (`ExecutingAwait` of yield kind) or after the previous yield settled
/// (`SuspendedYield`)?
pub open spec fn spec_parked_on_yield(s: AsyncGeneratorState) -> bool {
    ||| s matches AsyncGeneratorState::SuspendedYield { .. }
    ||| s matches AsyncGeneratorState::ExecutingAwait { kind: AsyncGeneratorAwaitKind::Yield, .. }
}

/// The queue after appending one call: the old queue plus a request pairing
/// the completion with the fresh promise's capability.
pub open spec fn spec_queue_after_enqueue(
    pre_queue: Seq<AsyncGeneratorRequest>,
    completion: AsyncGeneratorRequestCompletion,
    promise: Promise,
) -> Seq<AsyncGeneratorRequest> {
    pre_queue.push(
        AsyncGeneratorRequest {
            completion,
            capability: PromiseCapability { promise, must_be_unresolved: false },
        },
    )
}

/// Ask the generator for its next value: queue the call and, when the
/// machine is suspended, start servicing it at once. The caller's promise
/// settles when the body yields or completes.
pub fn async_generator_next(agent: &mut Agent, gen: AsyncGenerator, value: Value) -> (r: Promise)
    requires
        async_generator_ready(*old(agent), gen),
        !(gen.spec_state(*old(agent)) matches AsyncGeneratorState::DrainingQueue(_)),
    ensures
        final(agent).heap.async_generators.valid(gen.0),
        final(agent).heap.async_generators.spec_get(gen.0).async_generator_state is Some,
        final(agent).execution_context_stack@ == old(agent).execution_context_stack@,
        // The caller holds the fresh promise of the request appended at the
        // back of the queue.
        r.index() == old(agent).heap.promises@.len(),
        final(agent).heap.promises.valid(r),
        ({
            let q1 = spec_queue_after_enqueue(
                gen.spec_state(*old(agent)).spec_queue(),
                AsyncGeneratorRequestCompletion::Normal(value),
                r,
            );
            match gen.spec_state(*old(agent)) {
                // A running machine only queues: same state, the request at
                // the back.
                AsyncGeneratorState::Executing(_) => gen.spec_state(*final(agent))
                    matches AsyncGeneratorState::Executing(q) && q@ == q1,
                AsyncGeneratorState::ExecutingAwait { vm, execution_context, kind, .. } => gen.spec_state(
                    *final(agent),
                ) matches AsyncGeneratorState::ExecutingAwait {
                    vm: v2,
                    execution_context: e2,
                    kind: k2,
                    queue,
                } && v2 == vm && e2 == execution_context && k2 == kind && queue@ == q1,
                // A completed machine answers without running the body: the
                // request settles to `{ undefined, done:true }`.
                AsyncGeneratorState::Completed(_) => (gen.spec_state(*final(agent))
                    matches AsyncGeneratorState::Completed(q) && q@.len() == 0) && (forall|i: int|
                    0 <= i < q1.len() ==> request_settled(
                        *final(agent),
                        #[trigger] q1[i],
                        spec_drain_settlement(q1[i], Value::Undefined),
                        true,
                    )),
                // A suspended machine services the request at once: the body
                // runs (from its start, or resumed with the value) and the
                // outcome is dispatched.
                AsyncGeneratorState::SuspendedStart { .. } => exists|n: nat|
                    #[trigger] crate::vm::spec_run(
                        old(agent).heap.executables.spec_get(
                            old(agent).heap.async_generators.spec_get(gen.0).executable->Some_0,
                        ),
                        spec_resume_injection(gen.spec_state(*old(agent)), value),
                        n,
                    ) matches crate::vm::SpecStep::Done(outcome) && spec_outcome_handled(
                        q1,
                        spec_suspended_context(gen.spec_state(*old(agent))),
                        *final(agent),
                        gen,
                        outcome,
                    ),
                AsyncGeneratorState::SuspendedYield { .. } => exists|n: nat|
                    #[trigger] crate::vm::spec_run(
                        old(agent).heap.executables.spec_get(
                            old(agent).heap.async_generators.spec_get(gen.0).executable->Some_0,
                        ),
                        spec_resume_injection(gen.spec_state(*old(agent)), value),
                        n,
                    ) matches crate::vm::SpecStep::Done(outcome) && spec_outcome_handled(
                        q1,
                        spec_suspended_context(gen.spec_state(*old(agent))),
                        *final(agent),
                        gen,
                        outcome,
                    ),
                AsyncGeneratorState::DrainingQueue(_) => true,
            }
        }),
{
    let completion = AsyncGeneratorRequestCompletion::Normal(value);
    let ghost pre = *agent;
    let capability = async_generator_enqueue(agent, gen, completion);
    let ghost mid = *agent;
    proof {
        assert(gen.spec_state(mid).spec_queue() =~= spec_queue_after_enqueue(
            gen.spec_state(pre).spec_queue(),
            completion,
            capability.promise,
        ));
    }
    if gen.is_suspended_start(agent) || gen.is_suspended_yield(agent) {
        async_generator_resume(agent, gen, completion);
        proof {
            assert(spec_resume_injection(gen.spec_state(mid), value) == spec_resume_injection(
                gen.spec_state(pre),
                value,
            ));
            assert(spec_suspended_context(gen.spec_state(mid)) == spec_suspended_context(
                gen.spec_state(pre),
            ));
        }
    } else if gen.is_completed(agent) {
        async_generator_drain_queue(agent, gen, Value::Undefined);
    }
    capability.promise
}

/// Finish the generator from outside: queue the `return(value)` call. On a
/// machine that is suspended at its start or already completed, draining
/// starts at once; the host then delivers the awaited return value through
/// `resume_await`. One parked after a yield parks on the return-kind await.
/// On a running machine the call only queues — cancellation is not
/// preemptive — and takes effect once the current await settles.
pub fn async_generator_return(agent: &mut Agent, gen: AsyncGenerator, value: Value) -> (r: Promise)
    requires
        async_generator_ready(*old(agent), gen),
        !(gen.spec_state(*old(agent)) matches AsyncGeneratorState::DrainingQueue(_)),
    ensures
        final(agent).heap.async_generators.valid(gen.0),
        final(agent).heap.async_generators.spec_get(gen.0).async_generator_state is Some,
        final(agent).execution_context_stack@ == old(agent).execution_context_stack@,
        r.index() == old(agent).heap.promises@.len(),
        final(agent).heap.promises.valid(r),
        ({
            let q1 = spec_queue_after_enqueue(
                gen.spec_state(*old(agent)).spec_queue(),
                AsyncGeneratorRequestCompletion::Return(value),
                r,
            );
            match gen.spec_state(*old(agent)) {
                // Suspended at the start, or already completed: draining
                // begins at once, with the queue intact.
                AsyncGeneratorState::SuspendedStart { .. } => gen.spec_state(*final(agent))
                    matches AsyncGeneratorState::DrainingQueue(q) && q@ == q1,
                AsyncGeneratorState::Completed(_) => gen.spec_state(*final(agent))
                    matches AsyncGeneratorState::DrainingQueue(q) && q@ == q1,
                // Parked after a yield: the machine parks on the implicit
                // return-kind await; no more code runs yet.
                AsyncGeneratorState::SuspendedYield { vm, execution_context, .. } => gen.spec_state(
                    *final(agent),
                ) matches AsyncGeneratorState::ExecutingAwait {
                    vm: v2,
                    execution_context: e2,
                    kind,
                    queue,
                } && v2 == vm && e2 == execution_context && kind == AsyncGeneratorAwaitKind::Return
                    && queue@ == q1,
                // Running: the call only queues.
                AsyncGeneratorState::Executing(_) => gen.spec_state(*final(agent))
                    matches AsyncGeneratorState::Executing(q) && q@ == q1,
                AsyncGeneratorState::ExecutingAwait { vm, execution_context, kind, .. } => gen.spec_state(
                    *final(agent),
                ) matches AsyncGeneratorState::ExecutingAwait {
                    vm: v2,
                    execution_context: e2,
                    kind: k2,
                    queue,
                } && v2 == vm && e2 == execution_context && k2 == kind && queue@ == q1,
                AsyncGeneratorState::DrainingQueue(_) => true,
            }
        }),
{
    let completion = AsyncGeneratorRequestCompletion::Return(value);
    let capability = async_generator_enqueue(agent, gen, completion);
    if gen.is_suspended_start(agent) || gen.is_completed(agent) {
        gen.transition_to_draining_queue(agent);
    } else if gen.is_suspended_yield(agent) {
        async_generator_resume(agent, gen, completion);
    }
    capability.promise
}

/// Throw into the generator from outside: queue the `throw(error)` call;
/// a suspended machine receives it at once — with no handler ranges the
/// injected exception completes it abruptly.
pub fn async_generator_throw(agent: &mut Agent, gen: AsyncGenerator, error: JsError) -> (r:
    Promise)
    requires
        async_generator_ready(*old(agent), gen),
        !(gen.spec_state(*old(agent)) matches AsyncGeneratorState::DrainingQueue(_)),
    ensures
        final(agent).heap.async_generators.valid(gen.0),
        final(agent).heap.async_generators.spec_get(gen.0).async_generator_state is Some,
        final(agent).execution_context_stack@ == old(agent).execution_context_stack@,
        r.index() == old(agent).heap.promises@.len(),
        final(agent).heap.promises.valid(r),
        ({
            let q1 = spec_queue_after_enqueue(
                gen.spec_state(*old(agent)).spec_queue(),
                AsyncGeneratorRequestCompletion::Throw(error),
                r,
            );
            match gen.spec_state(*old(agent)) {
                AsyncGeneratorState::Executing(_) => gen.spec_state(*final(agent))
                    matches AsyncGeneratorState::Executing(q) && q@ == q1,
                AsyncGeneratorState::ExecutingAwait { vm, execution_context, kind, .. } => gen.spec_state(
                    *final(agent),
                ) matches AsyncGeneratorState::ExecutingAwait {
                    vm: v2,
                    execution_context: e2,
                    kind: k2,
                    queue,
                } && v2 == vm && e2 == execution_context && k2 == kind && queue@ == q1,
                AsyncGeneratorState::Completed(_) => (gen.spec_state(*final(agent))
                    matches AsyncGeneratorState::Completed(q) && q@.len() == 0) && (forall|i: int|
                    0 <= i < q1.len() ==> request_settled(
                        *final(agent),
                        #[trigger] q1[i],
                        spec_drain_settlement(q1[i], Value::Undefined),
                        true,
                    )),
                // A suspended machine receives the exception at once and
                // completes abruptly, rejecting the serviced request.
                AsyncGeneratorState::SuspendedStart { .. } => spec_outcome_handled(
                    q1,
                    spec_suspended_context(gen.spec_state(*old(agent))),
                    *final(agent),
                    gen,
                    crate::vm::SpecOutcome::Throw(error.spec_value()),
                ),
                AsyncGeneratorState::SuspendedYield { .. } => spec_outcome_handled(
                    q1,
                    spec_suspended_context(gen.spec_state(*old(agent))),
                    *final(agent),
                    gen,
                    crate::vm::SpecOutcome::Throw(error.spec_value()),
                ),
                AsyncGeneratorState::DrainingQueue(_) => true,
            }
        }),
{
    let completion = AsyncGeneratorRequestCompletion::Throw(error);
    let capability = async_generator_enqueue(agent, gen, completion);
    if gen.is_suspended_start(agent) || gen.is_suspended_yield(agent) {
        async_generator_resume(agent, gen, completion);
    } else if gen.is_completed(agent) {
        async_generator_drain_queue(agent, gen, Value::Undefined);
    }
    capability.promise
}

} // verus!
