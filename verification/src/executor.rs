use vstd::prelude::*;

use crate::buffer::Buffer;
use crate::engine::completions_rel;
use crate::engine::grant_rel;
use crate::engine::malloc_rel;
use crate::engine::pipelines_rel;
use crate::engine::refill_rel;
use crate::engine::submit_push_rel;
use crate::engine::take_actions_rel;
use crate::engine::take_pop_rel;
use crate::engine::take_push_rel;
use crate::engine::Action;
use crate::engine::Completion;
use crate::engine::Config;
use crate::engine::ConnectionEngine;
use crate::error::FatalError;
use crate::error::QueueError;

verus! {

/// Index of one connection's engine within the executor.
#[derive(Debug, Clone, Copy, PartialEq, Eq, Structural)]
pub struct TaskHandle(pub usize);

/// What a queue token stands for: a push, correlated by its work
/// identifier, or interest in the next received message (pop tokens carry
/// no identity; they are interchangeable).
#[derive(Debug, Clone, Copy, PartialEq, Eq, Structural)]
pub enum QueueTokenOp {
    Push(u64),
    Pop,
}

/// Opaque handle correlating a user operation with its eventual completion;
/// the only legitimate input to `wait` and `wait_any`.
#[derive(Debug, Clone, Copy, PartialEq, Eq, Structural)]
pub struct QueueToken {
    pub op: QueueTokenOp,
    pub task_id: TaskHandle,
}

/// A completed operation surfaced by `wait`: a pop carries a populated
/// buffer whose logical length is set to the received byte count; a push
/// carries the submitted buffer back.
pub enum CompletedRequest {
    Pop(Buffer),
    Push(Buffer),
}

impl CompletedRequest {
    /// The buffer the completed operation carries.
    pub open spec fn buffer_of(self) -> Buffer {
        match self {
            CompletedRequest::Pop(b) => b,
            CompletedRequest::Push(b) => b,
        }
    }

    pub fn pop_op(self) -> (r: Buffer)
        requires
            self is Pop,
        ensures
            self == CompletedRequest::Pop(r),
    {
        match self {
            CompletedRequest::Pop(b) => b,
            CompletedRequest::Push(b) => b,
        }
    }

    pub fn push_op(self) -> (r: Buffer)
        requires
            self is Push,
        ensures
            self == CompletedRequest::Push(r),
    {
        match self {
            CompletedRequest::Pop(b) => b,
            CompletedRequest::Push(b) => b,
        }
    }
}

/// Mutable access to one element of a vector.
fn element_mut<T>(v: &mut Vec<T>, i: usize) -> (e: &mut T)
    requires
        i < old(v)@.len(),
    ensures
        *e == old(v)@[i as int],
        final(v)@ == old(v)@.update(i as int, *final(e)),
{
    &mut v[i]
}

/// The cooperative scheduler: owns one engine per connection and drives the
/// pipelines in response to user calls. Everything is single-threaded; a
/// pipeline is "scheduled" by polling it exactly once.
pub struct Executor {
    pub tasks: Vec<ConnectionEngine>,
}

impl Executor {
    pub open spec fn wf(self) -> bool {
        forall|i: int| 0 <= i < self.tasks@.len() ==> (#[trigger] self.tasks@[i]).wf()
    }

    pub open spec fn task_valid(self, t: TaskHandle) -> bool {
        t.0 < self.tasks@.len()
    }

    pub open spec fn engine_of(self, t: TaskHandle) -> ConnectionEngine {
        self.tasks@[t.0 as int]
    }

    /// Engines other than `t`'s are untouched, and no connection appeared
    /// or vanished.
    pub open spec fn others_unchanged(pre: Executor, post: Executor, t: TaskHandle) -> bool {
        &&& post.tasks@.len() == pre.tasks@.len()
        &&& forall|i: int|
            0 <= i < pre.tasks@.len() && i != t.0 ==> post.tasks@[i] == #[trigger] pre.tasks@[i]
    }

    pub fn new() -> (r: Executor)
        ensures
            r.wf(),
            r.tasks@.len() == 0,
    {
        Executor { tasks: Vec::new() }
    }

    /// Install the engine of a freshly established connection and schedule
    /// its recv-refill pipeline once, so a full window of receives is posted
    /// and granted to the peer before any user operation.
    pub fn add_new_connection(&mut self, config: Config) -> (r: TaskHandle)
        requires
            old(self).wf(),
            config.wf(),
            old(self).tasks@.len() < usize::MAX,
        ensures
            final(self).wf(),
            final(self).task_valid(r),
            r.0 == old(self).tasks@.len(),
            final(self).tasks@.len() == old(self).tasks@.len() + 1,
            forall|i: int|
                0 <= i < old(self).tasks@.len() ==> final(self).tasks@[i] == #[trigger] old(
                    self,
                ).tasks@[i],
            ({
                let e = final(self).engine_of(r);
                &&& e.config == config
                &&& e.work_id_counter == config.window_size
                &&& e.incoming_pending@.len() == config.window_size
                &&& e.control_flow.recv_posted == config.window_size
                &&& e.control_flow.send_credits == 0
                &&& e.control_flow.grant_inbox == 0
                &&& e.pool@.len() == config.window_size
                &&& e.send_queue@.len() == 0
                &&& e.outgoing_pending@ == Map::<u64, Buffer>::empty()
                &&& e.completed_pushes@ == Map::<u64, Buffer>::empty()
                &&& e.completed_pops@.len() == 0
                &&& e.user_held == 0
                &&& e.actions@.len() == 2
                &&& match e.actions@[0] {
                    Action::PostReceives(ids) => ids@ == Seq::new(
                        config.window_size as nat,
                        |i: int| i as u64,
                    ),
                    _ => false,
                }
                &&& e.actions@.last() == Action::GrantCredits(config.window_size as u64)
            }),
    {
        let mut engine = ConnectionEngine::new(config);
        let posted = engine.poll_recv_refill();
        proof {
            assert(posted is Ok);
        }
        let handle = TaskHandle(self.tasks.len());
        self.tasks.push(engine);
        handle
    }

    /// Fetch a buffer from the connection's pre-registered pool.
    pub fn malloc(&mut self, task: TaskHandle) -> (r: Result<Buffer, QueueError>)
        requires
            old(self).wf(),
            old(self).task_valid(task),
        ensures
            final(self).wf(),
            Executor::others_unchanged(*old(self), *final(self), task),
            malloc_rel(old(self).engine_of(task), final(self).engine_of(task), r),
    {
        let engine = element_mut(&mut self.tasks, task.0);
        engine.malloc()
    }

    /// Return a buffer to the connection's pool.
    pub fn free(&mut self, task: TaskHandle, memory: Buffer)
        requires
            old(self).wf(),
            old(self).task_valid(task),
            old(self).engine_of(task).user_held >= 1,
            memory.wf(),
            memory.capacity() == old(self).engine_of(task).config.buffer_size,
        ensures
            final(self).wf(),
            Executor::others_unchanged(*old(self), *final(self), task),
            crate::engine::free_rel(old(self).engine_of(task), final(self).engine_of(task), memory),
    {
        let engine = element_mut(&mut self.tasks, task.0);
        engine.free(memory);
    }

    /// Submit a buffer for sending: enqueue it under a fresh work identifier
    /// and poll the push pipeline once.
    pub fn push(&mut self, task_handle: TaskHandle, memory: Buffer) -> (r: QueueToken)
        requires
            old(self).wf(),
            old(self).task_valid(task_handle),
            old(self).engine_of(task_handle).user_held >= 1,
            memory.wf(),
            memory.capacity() == old(self).engine_of(task_handle).config.buffer_size,
            old(self).engine_of(task_handle).work_id_counter < u64::MAX,
        ensures
            final(self).wf(),
            Executor::others_unchanged(*old(self), *final(self), task_handle),
            r.task_id == task_handle,
            r.op == QueueTokenOp::Push(old(self).engine_of(task_handle).work_id_counter),
            submit_push_rel(
                old(self).engine_of(task_handle),
                final(self).engine_of(task_handle),
                memory,
                old(self).engine_of(task_handle).work_id_counter,
            ),
    {
        let engine = element_mut(&mut self.tasks, task_handle.0);
        let work_id = engine.submit_push(memory);
        QueueToken { op: QueueTokenOp::Push(work_id), task_id: task_handle }
    }

    /// Register interest in the next received message. Pure bookkeeping: no
    /// engine state changes; receives surface asynchronously.
    pub fn pop(&mut self, task_handle: TaskHandle) -> (r: QueueToken)
        requires
            old(self).wf(),
            old(self).task_valid(task_handle),
        ensures
            final(self).wf(),
            *final(self) == *old(self),
            r == (QueueToken { op: QueueTokenOp::Pop, task_id: task_handle }),
    {
        QueueToken { op: QueueTokenOp::Pop, task_id: task_handle }
    }

    /// Whether the token's operation has completed and waits to be surfaced:
    /// a push token is ready when its identifier is in the completed store;
    /// a pop token is ready when any received message is.
    pub open spec fn token_ready_spec(self, qt: QueueToken) -> bool {
        match qt.op {
            QueueTokenOp::Push(work_id) => self.engine_of(
                qt.task_id,
            ).completed_pushes@.dom().contains(work_id),
            QueueTokenOp::Pop => self.engine_of(qt.task_id).completed_pops@.len() > 0,
        }
    }

    /// Non-destructive readiness check for one token.
    pub fn token_ready(&self, qt: QueueToken) -> (r: bool)
        requires
            self.wf(),
            self.task_valid(qt.task_id),
        ensures
            r == self.token_ready_spec(qt),
    {
        let engine = &self.tasks[qt.task_id.0];
        match qt.op {
            QueueTokenOp::Push(work_id) => engine.has_completed_push(work_id),
            QueueTokenOp::Pop => engine.has_completed_pop(),
        }
    }

    /// Check the completed store for the token's operation; surface it if it
    /// is there. Does not poll any pipeline.
    pub fn wait(&mut self, qt: QueueToken) -> (r: Option<CompletedRequest>)
        requires
            old(self).wf(),
            old(self).task_valid(qt.task_id),
        ensures
            final(self).wf(),
            Executor::others_unchanged(*old(self), *final(self), qt.task_id),
            r is Some ==> (qt.op is Push <==> r->0 is Push),
            match qt.op {
                QueueTokenOp::Push(work_id) => take_push_rel(
                    old(self).engine_of(qt.task_id),
                    final(self).engine_of(qt.task_id),
                    work_id,
                    match r {
                        Some(c) => Some(c.buffer_of()),
                        None => None,
                    },
                ),
                QueueTokenOp::Pop => take_pop_rel(
                    old(self).engine_of(qt.task_id),
                    final(self).engine_of(qt.task_id),
                    match r {
                        Some(c) => Some(c.buffer_of()),
                        None => None,
                    },
                ),
            },
    {
        let engine = element_mut(&mut self.tasks, qt.task_id.0);
        match qt.op {
            QueueTokenOp::Push(work_id) => {
                match engine.take_completed_push(work_id) {
                    Some(b) => Some(CompletedRequest::Push(b)),
                    None => None,
                }
            },
            QueueTokenOp::Pop => {
                match engine.take_completed_pop() {
                    Some(b) => Some(CompletedRequest::Pop(b)),
                    None => None,
                }
            },
        }
    }

    /// Schedule the token's recv-refill pipeline once; the completion
    /// pipeline itself advances when the driver delivers a drained batch.
    pub fn service_completion_queue(&mut self, qt: QueueToken) -> (r: Result<usize, QueueError>)
        requires
            old(self).wf(),
            old(self).task_valid(qt.task_id),
        ensures
            final(self).wf(),
            Executor::others_unchanged(*old(self), *final(self), qt.task_id),
            refill_rel(old(self).engine_of(qt.task_id), final(self).engine_of(qt.task_id), r),
    {
        let engine = element_mut(&mut self.tasks, qt.task_id.0);
        engine.poll_recv_refill()
    }

    /// Poll a connection's push and recv-refill pipelines once each; both
    /// suspend on their own when they have nothing to do. A refill that
    /// cannot be covered by the pool is left for a later poll: its buffers
    /// come back through `free`.
    pub fn poll_task(&mut self, task: TaskHandle)
        requires
            old(self).wf(),
            old(self).task_valid(task),
        ensures
            final(self).wf(),
            Executor::others_unchanged(*old(self), *final(self), task),
            pipelines_rel(old(self).engine_of(task), final(self).engine_of(task)),
    {
        let engine = element_mut(&mut self.tasks, task.0);
        engine.poll_pipelines();
    }

    /// Poll every connection's push and recv-refill pipelines once.
    pub fn poll_all_tasks(&mut self)
        requires
            old(self).wf(),
        ensures
            final(self).wf(),
            final(self).tasks@.len() == old(self).tasks@.len(),
            forall|t: int|
                0 <= t < old(self).tasks@.len() ==> pipelines_rel(
                    #[trigger] old(self).tasks@[t],
                    final(self).tasks@[t],
                ),
    {
        let mut t: usize = 0;
        let n = self.tasks.len();
        while t < n
            invariant
                0 <= t <= n,
                n == old(self).tasks@.len(),
                self.wf(),
                self.tasks@.len() == n,
                forall|i: int|
                    t <= i < n ==> self.tasks@[i] == #[trigger] old(self).tasks@[i],
                forall|i: int|
                    0 <= i < t ==> pipelines_rel(#[trigger] old(self).tasks@[i], self.tasks@[i]),
            decreases n - t,
        {
            self.poll_task(TaskHandle(t));
            t = t + 1;
        }
    }

    /// Hand the driver the engine's pending decisions for one connection.
    pub fn take_actions(&mut self, task: TaskHandle) -> (r: Vec<Action>)
        requires
            old(self).wf(),
            old(self).task_valid(task),
        ensures
            final(self).wf(),
            Executor::others_unchanged(*old(self), *final(self), task),
            take_actions_rel(old(self).engine_of(task), final(self).engine_of(task), r),
    {
        let engine = element_mut(&mut self.tasks, task.0);
        engine.take_actions()
    }

    /// Feed one connection's completion pipeline the batch the driver
    /// drained from its completion queue.
    pub fn deliver_completions(&mut self, task: TaskHandle, events: &Vec<Completion>) -> (r: Result<
        (),
        FatalError,
    >)
        requires
            old(self).wf(),
            old(self).task_valid(task),
        ensures
            final(self).wf(),
            Executor::others_unchanged(*old(self), *final(self), task),
            completions_rel(
                old(self).engine_of(task),
                final(self).engine_of(task),
                events@,
                r,
            ),
    {
        let engine = element_mut(&mut self.tasks, task.0);
        engine.handle_completions(events)
    }

    /// The peer granted `n` fresh send credits to one connection.
    pub fn deliver_peer_grant(&mut self, task: TaskHandle, n: u64)
        requires
            old(self).wf(),
            old(self).task_valid(task),
            old(self).engine_of(task).control_flow.grant_inbox + n <= u64::MAX,
        ensures
            final(self).wf(),
            Executor::others_unchanged(*old(self), *final(self), task),
            grant_rel(old(self).engine_of(task), final(self).engine_of(task), n),
    {
        let engine = element_mut(&mut self.tasks, task.0);
        engine.deliver_peer_grant(n);
    }
}

} // verus!
