use vstd::prelude::*;

mod buffer;
mod control_flow;
mod engine;
mod error;
mod executor;

use engine::free_rel;
use engine::malloc_rel;
use engine::pipelines_rel;
use engine::submit_push_rel;
use engine::take_pop_rel;
use engine::take_push_rel;

pub use buffer::Buffer;
pub use control_flow::ControlFlow;
pub use engine::Action;
pub use engine::Completion;
pub use engine::CompletionOpcode;
pub use engine::Config;
pub use engine::ConnectionEngine;
pub use engine::PopCompletion;
pub use engine::SendPost;
pub use engine::SendRequest;
pub use error::FatalError;
pub use error::QueueError;
pub use executor::CompletedRequest;
pub use executor::Executor;
pub use executor::QueueToken;
pub use executor::QueueTokenOp;
pub use executor::TaskHandle;

verus! {

/// Descriptor of one connection as the user holds it. The
/// communication-manager identifier itself lives with the driver; the
/// descriptor carries the handle of the connection's engine once the
/// connection has been established.
pub struct QueueDescriptor {
    pub scheduler_handle: Option<TaskHandle>,
}

impl QueueDescriptor {
    pub open spec fn connected(self) -> bool {
        self.scheduler_handle is Some
    }

    pub open spec fn handle(self) -> TaskHandle {
        self.scheduler_handle->0
    }

    /// A fresh descriptor, not yet bound to a connection.
    pub fn new() -> (r: QueueDescriptor)
        ensures
            !r.connected(),
    {
        QueueDescriptor { scheduler_handle: None }
    }
}

/// The user-facing I/O queue: a socket-like interface over the per-
/// connection engines. Address and route resolution, the connection
/// handshake and the verbs calls live with the driver; every decision of
/// the engine is made here.
pub struct IoQueue {
    pub executor: Executor,
    /// Whether connection-manager events are waited for synchronously; read
    /// by the driver, never by the engines.
    pub blocking: bool,
    /// Scheduling-time telemetry cell, read and reset by the caller.
    pub elapsed_time: u32,
}

impl IoQueue {
    pub open spec fn wf(self) -> bool {
        self.executor.wf()
    }

    /// A descriptor is meaningful for this queue when its handle, if any,
    /// names one of the queue's connections.
    pub open spec fn qd_wf(self, qd: QueueDescriptor) -> bool {
        qd.connected() ==> self.executor.task_valid(qd.handle())
    }

    pub open spec fn engine_for(self, qd: QueueDescriptor) -> ConnectionEngine {
        self.executor.engine_of(qd.handle())
    }

    pub open spec fn token_wf(self, qt: QueueToken) -> bool {
        self.executor.task_valid(qt.task_id)
    }

    /// A queue with no connections, waiting for connection-manager events
    /// synchronously.
    pub fn new() -> (r: IoQueue)
        ensures
            r.wf(),
            r.executor.tasks@.len() == 0,
            r.blocking,
            r.elapsed_time == 0,
    {
        IoQueue { executor: Executor::new(), blocking: true, elapsed_time: 0 }
    }

    /// Switch the queue to asynchronous connection-manager event handling.
    pub fn set_async(self) -> (r: IoQueue)
        ensures
            r.executor == self.executor,
            !r.blocking,
            r.elapsed_time == self.elapsed_time,
    {
        IoQueue { blocking: false, ..self }
    }

    /// The tail of `connect` and `accept`: once the driver's handshake has
    /// succeeded and the credit cells are exchanged, install a fresh engine
    /// for the connection and bind it to the descriptor. The engine posts a
    /// full window of receives at once, so the grant action waiting in it
    /// carries the window size.
    pub fn add_new_connection(&mut self, qd: &mut QueueDescriptor, config: Config) -> (r:
        TaskHandle)
        requires
            old(self).wf(),
            config.wf(),
            old(self).executor.tasks@.len() < usize::MAX,
        ensures
            final(self).wf(),
            final(qd).scheduler_handle == Some(r),
            final(self).executor.task_valid(r),
            final(self).qd_wf(*final(qd)),
            r.0 == old(self).executor.tasks@.len(),
            final(self).executor.tasks@.len() == old(self).executor.tasks@.len() + 1,
            forall|i: int|
                0 <= i < old(self).executor.tasks@.len() ==> final(self).executor.tasks@[i]
                    == #[trigger] old(self).executor.tasks@[i],
            ({
                let e = final(self).engine_for(*final(qd));
                &&& e.config == config
                &&& e.control_flow.recv_posted == config.window_size
                &&& e.control_flow.send_credits == 0
                &&& e.pool@.len() == config.window_size
                &&& e.user_held == 0
                &&& e.send_queue@.len() == 0
                &&& e.completed_pops@.len() == 0
                &&& e.completed_pushes@ == Map::<u64, Buffer>::empty()
                &&& e.actions@.len() == 2
                &&& match e.actions@[0] {
                    Action::PostReceives(ids) => ids@ == Seq::new(
                        config.window_size as nat,
                        |i: int| i as u64,
                    ),
                    _ => false,
                }
                &&& e.actions@.last() == Action::GrantCredits(config.window_size as u64)
            }),
            final(self).blocking == old(self).blocking,
            final(self).elapsed_time == old(self).elapsed_time,
    {
        let t = self.executor.add_new_connection(config);
        qd.scheduler_handle = Some(t);
        t
    }

    /// Fetch a buffer from the connection's pre-registered memory pool;
    /// fails with `PoolExhausted` exactly when the pool is empty.
    pub fn malloc(&mut self, qd: &mut QueueDescriptor) -> (r: Result<Buffer, QueueError>)
        requires
            old(self).wf(),
            old(self).qd_wf(*old(qd)),
            old(qd).connected(),
        ensures
            final(self).wf(),
            *final(qd) == *old(qd),
            Executor::others_unchanged(old(self).executor, final(self).executor, old(qd).handle()),
            malloc_rel(old(self).engine_for(*old(qd)), final(self).engine_for(*old(qd)), r),
            final(self).blocking == old(self).blocking,
            final(self).elapsed_time == old(self).elapsed_time,
    {
        let t = qd.scheduler_handle.unwrap();
        self.executor.malloc(t)
    }

    /// Return a buffer obtained from this connection to its pool.
    pub fn free(&mut self, qd: &mut QueueDescriptor, memory: Buffer)
        requires
            old(self).wf(),
            old(self).qd_wf(*old(qd)),
            old(qd).connected(),
            old(self).engine_for(*old(qd)).user_held >= 1,
            memory.wf(),
            memory.capacity() == old(self).engine_for(*old(qd)).config.buffer_size,
        ensures
            final(self).wf(),
            *final(qd) == *old(qd),
            Executor::others_unchanged(old(self).executor, final(self).executor, old(qd).handle()),
            free_rel(old(self).engine_for(*old(qd)), final(self).engine_for(*old(qd)), memory),
            final(self).blocking == old(self).blocking,
            final(self).elapsed_time == old(self).elapsed_time,
    {
        let t = qd.scheduler_handle.unwrap();
        self.executor.free(t, memory);
    }

    /// Submit a buffer for sending. The engine retains the buffer until the
    /// returned token is awaited. Fails with `ConnectionNotEstablished` on a
    /// descriptor that was never connected - a listener passed in place of a
    /// connection, for instance.
    pub fn push(&mut self, qd: &mut QueueDescriptor, mem: Buffer) -> (r: Result<
        QueueToken,
        QueueError,
    >)
        requires
            old(self).wf(),
            old(self).qd_wf(*old(qd)),
            old(qd).connected() ==> {
                &&& old(self).engine_for(*old(qd)).user_held >= 1
                &&& mem.wf()
                &&& mem.capacity() == old(self).engine_for(*old(qd)).config.buffer_size
                &&& old(self).engine_for(*old(qd)).work_id_counter < u64::MAX
            },
        ensures
            final(self).wf(),
            *final(qd) == *old(qd),
            !old(qd).connected() ==> r == Err::<QueueToken, QueueError>(
                QueueError::ConnectionNotEstablished,
            ) && *final(self) == *old(self),
            old(qd).connected() ==> {
                &&& r is Ok
                &&& r->Ok_0.task_id == old(qd).handle()
                &&& r->Ok_0.op == QueueTokenOp::Push(
                    old(self).engine_for(*old(qd)).work_id_counter,
                )
                &&& Executor::others_unchanged(
                    old(self).executor,
                    final(self).executor,
                    old(qd).handle(),
                )
                &&& submit_push_rel(
                    old(self).engine_for(*old(qd)),
                    final(self).engine_for(*old(qd)),
                    mem,
                    old(self).engine_for(*old(qd)).work_id_counter,
                )
            },
            final(self).blocking == old(self).blocking,
            final(self).elapsed_time == old(self).elapsed_time,
    {
        match qd.scheduler_handle {
            None => Err(QueueError::ConnectionNotEstablished),
            Some(t) => Ok(self.executor.push(t, mem)),
        }
    }

    /// Register interest in the next received message. Pure bookkeeping; the
    /// engine fills its receive window on its own. Fails with
    /// `ConnectionNotEstablished` on a descriptor that was never connected.
    pub fn pop(&mut self, qd: &mut QueueDescriptor) -> (r: Result<QueueToken, QueueError>)
        requires
            old(self).wf(),
            old(self).qd_wf(*old(qd)),
        ensures
            final(self).wf(),
            *final(qd) == *old(qd),
            *final(self) == *old(self),
            !old(qd).connected() ==> r == Err::<QueueToken, QueueError>(
                QueueError::ConnectionNotEstablished,
            ),
            old(qd).connected() ==> r == Ok::<QueueToken, QueueError>(
                (QueueToken { op: QueueTokenOp::Pop, task_id: old(qd).handle() }),
            ),
    {
        match qd.scheduler_handle {
            None => Err(QueueError::ConnectionNotEstablished),
            Some(t) => Ok(self.executor.pop(t)),
        }
    }

    /// One step of waiting on a token: surface the completed operation if it
    /// is there; otherwise poll the connection's pipelines once and report
    /// nothing yet. The driver loops, draining the engine's actions and
    /// delivering completion-queue batches between steps, until the token is
    /// satisfied.
    pub fn wait(&mut self, qt: QueueToken) -> (r: Option<CompletedRequest>)
        requires
            old(self).wf(),
            old(self).token_wf(qt),
        ensures
            final(self).wf(),
            Executor::others_unchanged(old(self).executor, final(self).executor, qt.task_id),
            r is Some ==> (qt.op is Push <==> r->0 is Push),
            match r {
                Some(c) => match qt.op {
                    QueueTokenOp::Push(work_id) => take_push_rel(
                        old(self).executor.engine_of(qt.task_id),
                        final(self).executor.engine_of(qt.task_id),
                        work_id,
                        Some(c.buffer_of()),
                    ),
                    QueueTokenOp::Pop => take_pop_rel(
                        old(self).executor.engine_of(qt.task_id),
                        final(self).executor.engine_of(qt.task_id),
                        Some(c.buffer_of()),
                    ),
                },
                None => !old(self).executor.token_ready_spec(qt) && pipelines_rel(
                    old(self).executor.engine_of(qt.task_id),
                    final(self).executor.engine_of(qt.task_id),
                ),
            },
            final(self).blocking == old(self).blocking,
            final(self).elapsed_time == old(self).elapsed_time,
    {
        match self.executor.wait(qt) {
            Some(c) => Some(c),
            None => {
                self.executor.poll_task(qt.task_id);
                None
            },
        }
    }

    /// One step of waiting on several tokens at once: surface the first
    /// satisfied token's completion with its index; with none satisfied,
    /// poll every connection's pipelines once and report nothing yet. Pop
    /// tokens are interchangeable, so the first pop token wins as soon as
    /// any received message is available.
    pub fn wait_any(&mut self, qts: &Vec<QueueToken>) -> (r: Option<(usize, CompletedRequest)>)
        requires
            old(self).wf(),
            forall|i: int| 0 <= i < qts@.len() ==> old(self).token_wf(#[trigger] qts@[i]),
        ensures
            final(self).wf(),
            final(self).executor.tasks@.len() == old(self).executor.tasks@.len(),
            match r {
                Some((i, c)) => {
                    &&& i < qts@.len()
                    &&& old(self).executor.token_ready_spec(qts@[i as int])
                    &&& forall|j: int|
                        0 <= j < i ==> !old(self).executor.token_ready_spec(#[trigger] qts@[j])
                    &&& (qts@[i as int].op is Push <==> c is Push)
                    &&& Executor::others_unchanged(
                        old(self).executor,
                        final(self).executor,
                        qts@[i as int].task_id,
                    )
                    &&& match qts@[i as int].op {
                        QueueTokenOp::Push(work_id) => take_push_rel(
                            old(self).executor.engine_of(qts@[i as int].task_id),
                            final(self).executor.engine_of(qts@[i as int].task_id),
                            work_id,
                            Some(c.buffer_of()),
                        ),
                        QueueTokenOp::Pop => take_pop_rel(
                            old(self).executor.engine_of(qts@[i as int].task_id),
                            final(self).executor.engine_of(qts@[i as int].task_id),
                            Some(c.buffer_of()),
                        ),
                    }
                },
                None => {
                    &&& forall|j: int|
                        0 <= j < qts@.len() ==> !old(self).executor.token_ready_spec(
                            #[trigger] qts@[j],
                        )
                    &&& forall|t: int|
                        0 <= t < old(self).executor.tasks@.len() ==> pipelines_rel(
                            #[trigger] old(self).executor.tasks@[t],
                            final(self).executor.tasks@[t],
                        )
                },
            },
            final(self).blocking == old(self).blocking,
            final(self).elapsed_time == old(self).elapsed_time,
    {
        let n = qts.len();
        let mut i: usize = 0;
        while i < n
            invariant
                0 <= i <= n,
                n == qts@.len(),
                *self == *old(self),
                old(self).wf(),
                forall|k: int| 0 <= k < n ==> old(self).token_wf(#[trigger] qts@[k]),
                forall|j: int|
                    0 <= j < i ==> !old(self).executor.token_ready_spec(#[trigger] qts@[j]),
            decreases n - i,
        {
            let qt = qts[i];
            if self.executor.token_ready(qt) {
                let c = self.executor.wait(qt).unwrap();
                return Some((i, c));
            }
            i = i + 1;
        }
        self.executor.poll_all_tasks();
        None
    }

    /// Read the accumulated scheduling-time telemetry and reset it.
    pub fn get_and_reset_time(&mut self) -> (r: u32)
        ensures
            r == old(self).elapsed_time,
            final(self).elapsed_time == 0,
            final(self).executor == old(self).executor,
            final(self).blocking == old(self).blocking,
    {
        let current = self.elapsed_time;
        self.elapsed_time = 0;
        current
    }
}

} // verus!
