use vstd::prelude::*;

use crate::buffer::Buffer;
use crate::control_flow::ControlFlow;
use crate::error::FatalError;
use crate::error::QueueError;

use std::collections::HashMap;
use std::collections::VecDeque;

verus! {

broadcast use
    vstd::std_specs::hash::group_hash_axioms,
    vstd::set::group_set_axioms,
    vstd::map::group_map_axioms,
;

/// Per-connection tunables, fixed at connection setup.
#[derive(Clone, Copy)]
pub struct Config {
    /// Flow-control window: the refill batch size; the memory pool holds
    /// twice this many buffers.
    pub window_size: usize,
    /// The adapter's maximum number of outstanding receive work requests.
    pub recv_wrs: usize,
    /// Byte size of every buffer of the connection.
    pub buffer_size: usize,
}

impl Config {
    pub open spec fn wf(self) -> bool {
        &&& 1 <= self.window_size
        &&& self.window_size <= self.recv_wrs
        &&& 1 <= self.buffer_size
        &&& 2 * self.window_size <= usize::MAX
    }

    /// The pool is created with twice the window's worth of buffers.
    pub open spec fn pool_capacity(self) -> int {
        2 * self.window_size
    }

    /// The refill pipeline runs when fewer receives than this are
    /// outstanding: half the window, rounded up so that a window of one
    /// still refills.
    pub open spec fn low_water(self) -> int {
        (self.window_size + 1) / 2
    }
}

/// A user push accepted by the engine but not yet posted to the adapter.
pub struct SendRequest {
    pub work_id: u64,
    pub buffer: Buffer,
}

/// A received message waiting for a pop token: the buffer that was pinned
/// to the receive work request, and the bytes the peer transmitted.
pub struct PopCompletion {
    pub buffer: Buffer,
    pub bytes: Vec<u8>,
}

/// One send the driver must post: the work identifier and a copy of the
/// buffer's valid bytes.
pub struct SendPost {
    pub work_id: u64,
    pub bytes: Vec<u8>,
}

/// Work the engine has decided on and the driver must carry out against the
/// adapter: post sends, post receives (one pool buffer each), or transmit a
/// credit grant to the peer.
pub enum Action {
    PostSends(Vec<SendPost>),
    PostReceives(Vec<u64>),
    GrantCredits(u64),
}

/// Opcode of a work completion, as the driver reports it.
#[derive(Debug, Clone, Copy, PartialEq, Eq, Structural)]
pub enum CompletionOpcode {
    Recv,
    Send,
    RdmaWrite,
    RdmaRead,
    Unknown,
}

/// One work completion drained from the completion queue. For a receive
/// completion `bytes` holds what the adapter wrote into the pinned buffer;
/// it is empty otherwise.
pub struct Completion {
    pub work_id: u64,
    pub opcode: CompletionOpcode,
    pub success: bool,
    pub bytes: Vec<u8>,
}

/// A map from work identifiers to the buffers pinned under them.
pub open spec fn pin_map(pairs: Seq<(u64, Buffer)>) -> Map<u64, Buffer>
    decreases pairs.len(),
{
    if pairs.len() == 0 {
        Map::empty()
    } else {
        pin_map(pairs.drop_last()).insert(pairs.last().0, pairs.last().1)
    }
}

pub proof fn lemma_pin_map_take_snoc(pairs: Seq<(u64, Buffer)>, i: int)
    requires
        0 <= i < pairs.len(),
    ensures
        pin_map(pairs.take(i + 1)) == pin_map(pairs.take(i)).insert(pairs[i].0, pairs[i].1),
{
    assert(pairs.take(i + 1).drop_last() =~= pairs.take(i));
    assert(pairs.take(i + 1).last() == pairs[i]);
}

pub proof fn lemma_pin_map_push(pairs: Seq<(u64, Buffer)>, p: (u64, Buffer))
    ensures
        pin_map(pairs.push(p)) == pin_map(pairs).insert(p.0, p.1),
{
    assert(pairs.push(p).drop_last() =~= pairs);
    assert(pairs.push(p).last() == p);
}

pub proof fn lemma_pin_map_membership(pairs: Seq<(u64, Buffer)>, id: u64)
    ensures
        pin_map(pairs).dom().contains(id) <==> exists|i: int|
            0 <= i < pairs.len() && (#[trigger] pairs[i]).0 == id,
    decreases pairs.len(),
{
    if pairs.len() > 0 {
        lemma_pin_map_membership(pairs.drop_last(), id);
        if pin_map(pairs).dom().contains(id) {
            if pairs.last().0 == id {
                assert(pairs[pairs.len() - 1].0 == id);
            } else {
                let i = choose|i: int|
                    0 <= i < pairs.drop_last().len() && (#[trigger] pairs.drop_last()[i]).0 == id;
                assert(pairs[i].0 == id);
            }
        }
        if exists|i: int| 0 <= i < pairs.len() && (#[trigger] pairs[i]).0 == id {
            let i = choose|i: int| 0 <= i < pairs.len() && (#[trigger] pairs[i]).0 == id;
            if i < pairs.len() - 1 {
                assert(pairs.drop_last()[i].0 == id);
            }
        }
    }
}

/// The engine of one connection: the memory pool, the credit state, the
/// pending and completed stores, and the queues feeding the three
/// pipelines. The adapter itself is driven from outside: the engine only
/// decides, and records what must be posted as `Action`s.
pub struct ConnectionEngine {
    pub config: Config,
    /// Free buffers; the single source of truth for buffer ownership.
    pub pool: VecDeque<Buffer>,
    /// How many buffers the user currently holds (from `malloc` or a
    /// surfaced completion, not yet `free`d or pushed).
    pub user_held: usize,
    /// User pushes accepted but not yet posted, in issue order.
    pub send_queue: VecDeque<SendRequest>,
    /// Work identifier to buffer pinned by an outstanding send.
    pub outgoing_pending: HashMap<u64, Buffer>,
    /// Work identifier to buffer pinned by an outstanding receive.
    pub incoming_pending: HashMap<u64, Buffer>,
    /// Completed sends, keyed by work identifier, until a `wait` surfaces
    /// them.
    pub completed_pushes: HashMap<u64, Buffer>,
    /// Completed receives in wire order; pop tokens are matched against
    /// them as a bag.
    pub completed_pops: VecDeque<PopCompletion>,
    /// Next fresh work identifier; monotonically increasing, never reused.
    pub work_id_counter: u64,
    pub control_flow: ControlFlow,
    /// Decisions not yet carried out by the driver.
    pub actions: Vec<Action>,
}

impl ConnectionEngine {
    pub open spec fn buffer_ok(self, b: Buffer) -> bool {
        &&& b.wf()
        &&& b.capacity() == self.config.buffer_size
    }

    /// No work identifier is assigned twice, and every identifier in use is
    /// below the counter.
    pub open spec fn ids_wf(self) -> bool {
        &&& forall|i: int|
            0 <= i < self.send_queue@.len() ==> (#[trigger] self.send_queue@[i]).work_id
                < self.work_id_counter
        &&& forall|i: int, j: int|
            0 <= i < j < self.send_queue@.len() ==> (#[trigger] self.send_queue@[i]).work_id != (
            #[trigger] self.send_queue@[j]).work_id
        &&& forall|id: u64|
            #[trigger] self.outgoing_pending@.dom().contains(id) ==> id < self.work_id_counter
        &&& forall|id: u64|
            #[trigger] self.incoming_pending@.dom().contains(id) ==> id < self.work_id_counter
        &&& forall|id: u64|
            #[trigger] self.completed_pushes@.dom().contains(id) ==> id < self.work_id_counter
        &&& forall|i: int|
            0 <= i < self.send_queue@.len() ==> !self.outgoing_pending@.dom().contains(
                (#[trigger] self.send_queue@[i]).work_id,
            ) && !self.incoming_pending@.dom().contains(self.send_queue@[i].work_id)
                && !self.completed_pushes@.dom().contains(self.send_queue@[i].work_id)
        &&& self.outgoing_pending@.dom().disjoint(self.incoming_pending@.dom())
        &&& self.outgoing_pending@.dom().disjoint(self.completed_pushes@.dom())
        &&& self.incoming_pending@.dom().disjoint(self.completed_pushes@.dom())
    }

    /// Every buffer anywhere in the engine has the connection's buffer size;
    /// pool buffers are reset.
    pub open spec fn buffers_wf(self) -> bool {
        &&& forall|i: int|
            0 <= i < self.pool@.len() ==> self.buffer_ok(#[trigger] self.pool@[i])
                && self.pool@[i].len == 0
        &&& forall|i: int|
            0 <= i < self.send_queue@.len() ==> self.buffer_ok(
                (#[trigger] self.send_queue@[i]).buffer,
            )
        &&& forall|id: u64|
            #[trigger] self.outgoing_pending@.dom().contains(id) ==> self.buffer_ok(
                self.outgoing_pending@[id],
            )
        &&& forall|id: u64|
            #[trigger] self.incoming_pending@.dom().contains(id) ==> self.buffer_ok(
                self.incoming_pending@[id],
            )
        &&& forall|id: u64|
            #[trigger] self.completed_pushes@.dom().contains(id) ==> self.buffer_ok(
                self.completed_pushes@[id],
            )
        &&& forall|i: int|
            0 <= i < self.completed_pops@.len() ==> self.buffer_ok(
                (#[trigger] self.completed_pops@[i]).buffer,
            ) && self.completed_pops@[i].bytes@.len() <= self.config.buffer_size
    }

    /// Every buffer of the connection is in exactly one place; their number
    /// never changes after setup.
    pub open spec fn buffers_in_flight(self) -> int {
        self.pool@.len() + self.send_queue@.len() + self.outgoing_pending@.len()
            + self.incoming_pending@.len() + self.completed_pushes@.len()
            + self.completed_pops@.len() + self.user_held
    }

    /// The posted-receive count mirrors the incoming-pending map, never
    /// exceeds the adapter capacity, and stays under the low-water mark
    /// plus one refill batch. The outbox is drained as soon as it is
    /// written, so it is empty between steps.
    pub open spec fn credits_wf(self) -> bool {
        &&& self.control_flow.recv_posted == self.incoming_pending@.len()
        &&& self.control_flow.recv_posted <= self.config.recv_wrs
        &&& self.control_flow.recv_posted < self.config.low_water() + self.config.window_size
        &&& self.control_flow.grant_outbox == 0
    }

    /// Everything but the credit bookkeeping; the pipelines restore the
    /// credit clauses at the end of each poll.
    pub open spec fn wf_core(self) -> bool {
        &&& self.config.wf()
        &&& self.ids_wf()
        &&& self.buffers_wf()
        &&& self.buffers_in_flight() == self.config.pool_capacity()
    }

    pub open spec fn wf(self) -> bool {
        &&& self.wf_core()
        &&& self.credits_wf()
    }

    /// A fresh engine: a full pool of reset buffers and nothing else.
    pub fn new(config: Config) -> (r: ConnectionEngine)
        requires
            config.wf(),
        ensures
            r.wf(),
            r.config == config,
            r.pool@.len() == config.pool_capacity(),
            r.user_held == 0,
            r.send_queue@.len() == 0,
            r.outgoing_pending@ == Map::<u64, Buffer>::empty(),
            r.incoming_pending@ == Map::<u64, Buffer>::empty(),
            r.completed_pushes@ == Map::<u64, Buffer>::empty(),
            r.completed_pops@.len() == 0,
            r.work_id_counter == 0,
            r.control_flow == (ControlFlow {
                send_credits: 0,
                recv_posted: 0,
                grant_inbox: 0,
                grant_outbox: 0,
            }),
            r.actions@.len() == 0,
    {
        let pool_size: usize = 2 * config.window_size;
        let mut pool: VecDeque<Buffer> = VecDeque::new();
        let mut i: usize = 0;
        while i < pool_size
            invariant
                i <= pool_size,
                pool@.len() == i,
                config.wf(),
                forall|j: int|
                    0 <= j < i ==> (#[trigger] pool@[j]).wf() && pool@[j].capacity()
                        == config.buffer_size && pool@[j].len == 0,
            decreases pool_size - i,
        {
            pool.push_back(Buffer::new(config.buffer_size));
            i = i + 1;
        }
        ConnectionEngine {
            config,
            pool,
            user_held: 0,
            send_queue: VecDeque::new(),
            outgoing_pending: HashMap::new(),
            incoming_pending: HashMap::new(),
            completed_pushes: HashMap::new(),
            completed_pops: VecDeque::new(),
            work_id_counter: 0,
            control_flow: ControlFlow::new(),
            actions: Vec::new(),
        }
    }

    /// Hand one buffer from the pool to the user; fails exactly when the
    /// pool is empty.
    pub fn malloc(&mut self) -> (r: Result<Buffer, QueueError>)
        requires
            old(self).wf(),
        ensures
            final(self).wf(),
            malloc_rel(*old(self), *final(self), r),
    {
        if self.pool.len() == 0 {
            return Err(QueueError::PoolExhausted);
        }
        match self.pool.pop_front() {
            None => Err(QueueError::PoolExhausted),
            Some(buffer) => {
                self.user_held = self.user_held + 1;
                Ok(buffer)
            },
        }
    }

    /// Return a user-held buffer to the pool, resetting its logical length.
    pub fn free(&mut self, buffer: Buffer)
        requires
            old(self).wf(),
            old(self).user_held >= 1,
            buffer.wf(),
            buffer.capacity() == old(self).config.buffer_size,
        ensures
            final(self).wf(),
            free_rel(*old(self), *final(self), buffer),
    {
        let mut b = buffer;
        b.set_length(0);
        self.pool.push_back(b);
        self.user_held = self.user_held - 1;
    }

    /// Accept a user push: assign it the next work identifier and append it
    /// to the send queue for the push pipeline.
    pub fn push(&mut self, buffer: Buffer) -> (r: u64)
        requires
            old(self).wf(),
            old(self).user_held >= 1,
            buffer.wf(),
            buffer.capacity() == old(self).config.buffer_size,
            old(self).work_id_counter < u64::MAX,
        ensures
            final(self).wf(),
            r == old(self).work_id_counter,
            push_rel(*old(self), *final(self), buffer, r),
    {
        let work_id = self.work_id_counter;
        self.work_id_counter = self.work_id_counter + 1;
        self.send_queue.push_back(SendRequest { work_id, buffer });
        self.user_held = self.user_held - 1;
        work_id
    }

    /// The send credits available to the push pipeline once it has adopted
    /// any pending peer grant.
    pub open spec fn adopted_send_credits(self) -> int {
        if self.control_flow.send_credits > 0 {
            self.control_flow.send_credits as int
        } else {
            self.control_flow.grant_inbox as int
        }
    }

    /// The engine after the push pipeline's credit step: with the local
    /// count exhausted, the peer grant is adopted and acknowledged.
    pub open spec fn with_adopted_credits(self) -> ConnectionEngine {
        if self.control_flow.send_credits == 0 {
            ConnectionEngine {
                control_flow: ControlFlow {
                    send_credits: self.control_flow.grant_inbox,
                    grant_inbox: 0,
                    ..self.control_flow
                },
                ..self
            }
        } else {
            self
        }
    }

    /// How many sends one poll of the push pipeline posts: all pending
    /// requests, up to the available credits.
    pub open spec fn push_batch_len(self) -> int {
        let avail = self.adopted_send_credits();
        if self.send_queue@.len() <= avail {
            self.send_queue@.len() as int
        } else {
            avail
        }
    }
}

/// What `malloc` does: the first pool buffer moves to the user's hands;
/// with an empty pool nothing changes and the call fails with
/// `PoolExhausted`.
pub open spec fn malloc_rel(
    pre: ConnectionEngine,
    post: ConnectionEngine,
    r: Result<Buffer, QueueError>,
) -> bool {
    if pre.pool@.len() == 0 {
        r == Err::<Buffer, QueueError>(QueueError::PoolExhausted) && post == pre
    } else {
        &&& r == Ok::<Buffer, QueueError>(pre.pool@[0])
        &&& post == (ConnectionEngine {
            pool: post.pool,
            user_held: (pre.user_held + 1) as usize,
            ..pre
        })
        &&& post.pool@ == pre.pool@.subrange(1, pre.pool@.len() as int)
    }
}

/// What `free` does: the buffer returns to the back of the pool with its
/// logical length reset, leaving the user's hands.
pub open spec fn free_rel(pre: ConnectionEngine, post: ConnectionEngine, buffer: Buffer) -> bool {
    &&& post == (ConnectionEngine {
        pool: post.pool,
        user_held: (pre.user_held - 1) as usize,
        ..pre
    })
    &&& post.pool@ == pre.pool@.push((Buffer { data: buffer.data, len: 0 }))
}

/// What `push` does: the buffer leaves the user's hands and joins the back
/// of the send queue under the next fresh work identifier.
pub open spec fn push_rel(
    pre: ConnectionEngine,
    post: ConnectionEngine,
    buffer: Buffer,
    id: u64,
) -> bool {
    &&& id == pre.work_id_counter
    &&& post == (ConnectionEngine {
        send_queue: post.send_queue,
        user_held: (pre.user_held - 1) as usize,
        work_id_counter: (pre.work_id_counter + 1) as u64,
        ..pre
    })
    &&& post.send_queue@ == pre.send_queue@.push((SendRequest { work_id: id, buffer }))
}

/// What surfacing a completed push does: the buffer submitted under the
/// identifier returns to the user exactly as it was pushed; absent a
/// completion, nothing changes.
pub open spec fn take_push_rel(
    pre: ConnectionEngine,
    post: ConnectionEngine,
    work_id: u64,
    r: Option<Buffer>,
) -> bool {
    if pre.completed_pushes@.dom().contains(work_id) {
        &&& r == Some(pre.completed_pushes@[work_id])
        &&& post == (ConnectionEngine {
            completed_pushes: post.completed_pushes,
            user_held: (pre.user_held + 1) as usize,
            ..pre
        })
        &&& post.completed_pushes@ == pre.completed_pushes@.remove(work_id)
    } else {
        r is None && post == pre
    }
}

/// What surfacing a completed pop does: the oldest received message leaves
/// the store as a buffer holding exactly the transmitted bytes, with its
/// logical length equal to their count; with no completed receive, nothing
/// changes.
pub open spec fn take_pop_rel(
    pre: ConnectionEngine,
    post: ConnectionEngine,
    r: Option<Buffer>,
) -> bool {
    if pre.completed_pops@.len() == 0 {
        r is None && post == pre
    } else {
        let p = pre.completed_pops@[0];
        &&& r is Some
        &&& r->0@ == p.bytes@
        &&& r->0.len == p.bytes@.len()
        &&& r->0.wf()
        &&& r->0.capacity() == pre.config.buffer_size
        &&& post == (ConnectionEngine {
            completed_pops: post.completed_pops,
            user_held: (pre.user_held + 1) as usize,
            ..pre
        })
        &&& post.completed_pops@ == pre.completed_pops@.subrange(
            1,
            pre.completed_pops@.len() as int,
        )
    }
}

/// What a landing peer grant does: only the inbox cell grows.
pub open spec fn grant_rel(pre: ConnectionEngine, post: ConnectionEngine, n: u64) -> bool {
    post == (ConnectionEngine {
        control_flow: ControlFlow {
            grant_inbox: (pre.control_flow.grant_inbox + n) as u64,
            ..pre.control_flow
        },
        ..pre
    })
}

/// What draining the action list does: the recorded decisions are handed
/// over and none remain.
pub open spec fn take_actions_rel(
    pre: ConnectionEngine,
    post: ConnectionEngine,
    r: Vec<Action>,
) -> bool {
    &&& r == pre.actions
    &&& post == (ConnectionEngine { actions: post.actions, ..pre })
    &&& post.actions@.len() == 0
}

/// The posts handed to the driver carry exactly the identifiers and the
/// valid bytes of the requests they were made from.
pub open spec fn posts_match(posts: Seq<SendPost>, q: Seq<SendRequest>) -> bool {
    &&& posts.len() == q.len()
    &&& forall|i: int|
        0 <= i < q.len() ==> (#[trigger] posts[i]).work_id == q[i].work_id && posts[i].bytes@
            == q[i].buffer@
}

pub open spec fn queue_pairs(q: Seq<SendRequest>) -> Seq<(u64, Buffer)> {
    q.map_values(|r: SendRequest| (r.work_id, r.buffer))
}

/// What one poll of the push pipeline does: adopt a pending credit grant if
/// the local count is exhausted; suspend when no credit or no request is
/// available; otherwise move the first `posted` requests from the send queue
/// into the outgoing-pending map, record one batched send posting for the
/// driver, and consume that many credits.
pub open spec fn poll_push_rel(
    pre: ConnectionEngine,
    post: ConnectionEngine,
    posted: int,
) -> bool {
    let mid = pre.with_adopted_credits();
    let n = pre.push_batch_len();
    if pre.adopted_send_credits() == 0 || pre.send_queue@.len() == 0 {
        posted == 0 && post == mid
    } else {
        &&& posted == n
        &&& post.send_queue@ == pre.send_queue@.skip(n)
        &&& post.outgoing_pending@ == pre.outgoing_pending@.union_prefer_right(
            pin_map(queue_pairs(pre.send_queue@.take(n))),
        )
        &&& post.control_flow == (ControlFlow {
            send_credits: (pre.adopted_send_credits() - n) as u64,
            ..mid.control_flow
        })
        &&& post.actions@.len() == pre.actions@.len() + 1
        &&& post.actions@.take(pre.actions@.len() as int) == pre.actions@
        &&& match post.actions@.last() {
            Action::PostSends(p) => posts_match(p@, pre.send_queue@.take(n)),
            _ => false,
        }
        &&& post.pool == pre.pool
        &&& post.user_held == pre.user_held
        &&& post.incoming_pending == pre.incoming_pending
        &&& post.completed_pushes == pre.completed_pushes
        &&& post.completed_pops == pre.completed_pops
        &&& post.work_id_counter == pre.work_id_counter
        &&& post.config == pre.config
    }
}

impl ConnectionEngine {
    /// One poll of the push pipeline. Returns how many sends were posted.
    pub fn poll_push(&mut self) -> (r: usize)
        requires
            old(self).wf(),
        ensures
            final(self).wf(),
            poll_push_rel(*old(self), *final(self), r as int),
    {
        if self.control_flow.remaining_send_credits() == 0 {
            if self.control_flow.peer_granted_credits() > 0 {
                self.control_flow.adopt_peer_grant();
            } else {
                return 0;
            }
        }
        let avail: u64 = self.control_flow.remaining_send_credits();
        if self.send_queue.len() == 0 {
            return 0;
        }
        let qlen: usize = self.send_queue.len();
        let n: usize = if (qlen as u64) <= avail {
            qlen
        } else {
            avail as usize
        };
        let mut posts: Vec<SendPost> = Vec::new();
        let mut i: usize = 0;
        while i < n
            invariant
                0 < n <= old(self).send_queue@.len(),
                n <= old(self).adopted_send_credits(),
                0 <= i <= n,
                self.wf(),
                self.send_queue@ == old(self).send_queue@.skip(i as int),
                self.outgoing_pending@ == old(self).outgoing_pending@.union_prefer_right(
                    pin_map(queue_pairs(old(self).send_queue@.take(i as int))),
                ),
                posts_match(posts@, old(self).send_queue@.take(i as int)),
                self.control_flow == old(self).with_adopted_credits().control_flow,
                self.control_flow.send_credits == old(self).adopted_send_credits(),
                self.pool == old(self).pool,
                self.user_held == old(self).user_held,
                self.incoming_pending == old(self).incoming_pending,
                self.completed_pushes == old(self).completed_pushes,
                self.completed_pops == old(self).completed_pops,
                self.work_id_counter == old(self).work_id_counter,
                self.config == old(self).config,
                self.actions == old(self).actions,
            decreases n - i,
        {
            proof {
                assert(self.send_queue@.len() > 0);
                assert(self.send_queue@[0] == old(self).send_queue@[i as int]);
            }
            let req = self.send_queue.pop_front().unwrap();
            let bytes = req.buffer.to_vec();
            posts.push(SendPost { work_id: req.work_id, bytes });
            proof {
                let q = old(self).send_queue@;
                assert(q.skip(i as int).subrange(1, q.skip(i as int).len() as int) =~= q.skip(
                    i as int + 1,
                ));
                // the moved identifier is fresh in the outgoing-pending map
                lemma_pin_map_membership(queue_pairs(q.take(i as int)), req.work_id);
                assert(queue_pairs(q.take(i as int)).len() == i);
                assert(forall|k: int|
                    0 <= k < i ==> (#[trigger] queue_pairs(q.take(i as int))[k]).0
                        == q[k].work_id);
                assert(!pin_map(queue_pairs(q.take(i as int))).dom().contains(req.work_id));
                assert(!self.outgoing_pending@.dom().contains(req.work_id));
            }
            self.outgoing_pending.insert(req.work_id, req.buffer);
            proof {
                let q = old(self).send_queue@;
                assert(queue_pairs(q.take(i as int + 1)) =~= queue_pairs(q.take(i as int)).push(
                    (q[i as int].work_id, q[i as int].buffer),
                ));
                lemma_pin_map_take_snoc(queue_pairs(q.take(i as int + 1)), i as int);
                assert(queue_pairs(q.take(i as int + 1)).take(i as int) =~= queue_pairs(
                    q.take(i as int),
                ));
                assert(queue_pairs(q.take(i as int + 1))[i as int] == (
                    q[i as int].work_id,
                    q[i as int].buffer,
                ));
                assert(pin_map(queue_pairs(q.take(i as int + 1))) == pin_map(
                    queue_pairs(q.take(i as int)),
                ).insert(q[i as int].work_id, q[i as int].buffer));
                assert(self.outgoing_pending@ =~= old(self).outgoing_pending@.union_prefer_right(
                    pin_map(queue_pairs(q.take(i as int + 1))),
                ));
                assert(posts@ =~= posts@.take(i as int).push(posts@[i as int]));
            }
            i = i + 1;
        }
        self.actions.push(Action::PostSends(posts));
        self.control_flow.consume_send_credits(n as u64);
        proof {
            let pre = *old(self);
            let n_spec: int = pre.push_batch_len();
            assert(n == n_spec);
            assert(self.send_queue@ == pre.send_queue@.skip(n as int));
            assert(self.outgoing_pending@ == pre.outgoing_pending@.union_prefer_right(
                pin_map(queue_pairs(pre.send_queue@.take(n as int))),
            ));
            assert(self.control_flow == (ControlFlow {
                send_credits: (pre.adopted_send_credits() - n) as u64,
                ..pre.with_adopted_credits().control_flow
            }));
            assert(self.actions@.len() == pre.actions@.len() + 1);
            assert(self.actions@.take(pre.actions@.len() as int) =~= pre.actions@);
            assert(match self.actions@.last() {
                Action::PostSends(p) => posts_match(p@, pre.send_queue@.take(n as int)),
                _ => false,
            });
            assert(poll_push_rel(*old(self), *self, n as int));
        }
        n
    }

    /// How many receives one refill posts: a full window, or the remaining
    /// adapter capacity, whichever is smaller.
    pub open spec fn refill_amount(self) -> int {
        let cap_left = self.config.recv_wrs - self.control_flow.recv_posted;
        if self.config.window_size <= cap_left {
            self.config.window_size as int
        } else {
            cap_left
        }
    }
}

/// The identifiers `start, start + 1, ...` pinned to the given buffers.
pub open spec fn recv_pairs(start: u64, bufs: Seq<Buffer>) -> Seq<(u64, Buffer)> {
    Seq::new(bufs.len(), |i: int| (((start + i) as u64), bufs[i]))
}

/// What one poll of the recv-refill pipeline does: suspend while the posted
/// receives are at or above the low-water mark (or no fresh identifiers are
/// left); fail fast with `PoolExhausted` when the pool cannot cover a full
/// refill; otherwise pin one pool buffer under each of `refill_amount`
/// fresh identifiers, record the receive posting and the credit grant for
/// the driver, and account the new credits.
pub open spec fn refill_rel(
    pre: ConnectionEngine,
    post: ConnectionEngine,
    r: Result<usize, QueueError>,
) -> bool {
    let n = pre.refill_amount();
    if pre.control_flow.recv_posted >= pre.config.low_water() || pre.work_id_counter + n
        > u64::MAX {
        r == Ok::<usize, QueueError>(0) && post == pre
    } else if pre.pool@.len() < n {
        r == Err::<usize, QueueError>(QueueError::PoolExhausted) && post == pre
    } else {
        &&& r == Ok::<usize, QueueError>(n as usize)
        &&& post.pool@ == pre.pool@.skip(n)
        &&& post.incoming_pending@ == pre.incoming_pending@.union_prefer_right(
            pin_map(recv_pairs(pre.work_id_counter, pre.pool@.take(n))),
        )
        &&& post.work_id_counter == pre.work_id_counter + n
        &&& post.control_flow == (ControlFlow {
            recv_posted: (pre.control_flow.recv_posted + n) as u64,
            ..pre.control_flow
        })
        &&& post.actions@.len() == pre.actions@.len() + 2
        &&& post.actions@.take(pre.actions@.len() as int) == pre.actions@
        &&& match post.actions@[pre.actions@.len() as int] {
            Action::PostReceives(ids) => ids@ == Seq::new(
                n as nat,
                |i: int| ((pre.work_id_counter + i) as u64),
            ),
            _ => false,
        }
        &&& post.actions@.last() == Action::GrantCredits(n as u64)
        &&& post.send_queue == pre.send_queue
        &&& post.outgoing_pending == pre.outgoing_pending
        &&& post.completed_pushes == pre.completed_pushes
        &&& post.completed_pops == pre.completed_pops
        &&& post.user_held == pre.user_held
        &&& post.config == pre.config
    }
}

/// Spec-level snapshot of the stores the completion pipeline touches, with
/// a counter of receive completions seen in the current batch. Received
/// payloads appear as byte sequences.
pub ghost struct CompletionLedger {
    pub outgoing: Map<u64, Buffer>,
    pub incoming: Map<u64, Buffer>,
    pub completed_pushes: Map<u64, Buffer>,
    pub completed_pops: Seq<(Buffer, Seq<u8>)>,
    pub recv_completed: nat,
}

/// The completed-pops store abstracted to (pinned buffer, received bytes)
/// pairs.
pub open spec fn pops_view(pops: Seq<PopCompletion>) -> Seq<(Buffer, Seq<u8>)> {
    pops.map_values(|p: PopCompletion| (p.buffer, p.bytes@))
}

/// How the completion pipeline dispatches one work completion: a failed
/// status is fatal; a receive moves its pinned buffer to the completed-pops
/// store together with the transmitted bytes; a send moves its buffer to
/// the completed-pushes store under its identifier; one-sided transfers of
/// the control-flow machinery are acknowledged silently; anything else is
/// an unknown event.
pub open spec fn completion_step(
    s: CompletionLedger,
    c: Completion,
    buffer_size: int,
) -> Result<CompletionLedger, FatalError> {
    if !c.success {
        Err(FatalError::UnsuccessfulCompletion)
    } else {
        match c.opcode {
            CompletionOpcode::Recv => {
                if !s.incoming.dom().contains(c.work_id) {
                    Err(FatalError::UnknownWorkId)
                } else if c.bytes@.len() > buffer_size {
                    Err(FatalError::UnsuccessfulCompletion)
                } else {
                    Ok(
                        CompletionLedger {
                            incoming: s.incoming.remove(c.work_id),
                            completed_pops: s.completed_pops.push(
                                (s.incoming[c.work_id], c.bytes@),
                            ),
                            recv_completed: s.recv_completed + 1,
                            ..s
                        },
                    )
                }
            },
            CompletionOpcode::Send => {
                if !s.outgoing.dom().contains(c.work_id) {
                    Err(FatalError::UnknownWorkId)
                } else if s.completed_pushes.dom().contains(c.work_id) {
                    Err(FatalError::DuplicateWorkId)
                } else {
                    Ok(
                        CompletionLedger {
                            outgoing: s.outgoing.remove(c.work_id),
                            completed_pushes: s.completed_pushes.insert(
                                c.work_id,
                                s.outgoing[c.work_id],
                            ),
                            ..s
                        },
                    )
                }
            },
            CompletionOpcode::RdmaWrite => Ok(s),
            CompletionOpcode::RdmaRead => Ok(s),
            CompletionOpcode::Unknown => Err(FatalError::UnknownOpcode),
        }
    }
}

/// One batch drained from the completion queue, dispatched in order until
/// the first fatal event; the ledger reached and the error, if any.
pub open spec fn run_completions(
    s: CompletionLedger,
    events: Seq<Completion>,
    buffer_size: int,
) -> (CompletionLedger, Option<FatalError>)
    decreases events.len(),
{
    if events.len() == 0 {
        (s, None)
    } else {
        match completion_step(s, events.first(), buffer_size) {
            Ok(s2) => run_completions(s2, events.drop_first(), buffer_size),
            Err(e) => (s, Some(e)),
        }
    }
}

/// Unfolds `run_completions` one event at a time, from the front.
pub proof fn lemma_run_completions_snoc(
    s0: CompletionLedger,
    events: Seq<Completion>,
    i: int,
    buffer_size: int,
)
    requires
        0 <= i < events.len(),
        run_completions(s0, events.take(i), buffer_size).1 is None,
    ensures
        ({
            let s_i = run_completions(s0, events.take(i), buffer_size).0;
            match completion_step(s_i, events[i], buffer_size) {
                Ok(s2) => run_completions(s0, events.take(i + 1), buffer_size) == (
                    s2,
                    Option::<FatalError>::None,
                ),
                Err(e) => run_completions(s0, events, buffer_size) == (s_i, Some(e)),
            }
        }),
    decreases i,
{
    if i == 0 {
        assert(events.take(0) =~= Seq::<Completion>::empty());
        assert(run_completions(s0, events.take(0), buffer_size) == (
            s0,
            Option::<FatalError>::None,
        ));
        match completion_step(s0, events[0], buffer_size) {
            Ok(s2) => {
                assert(events.take(1).len() == 1);
                assert(events.take(1).first() == events[0]);
                assert(events.take(1).drop_first() =~= Seq::<Completion>::empty());
                assert(run_completions(s0, events.take(1), buffer_size) == run_completions(
                    s2,
                    events.take(1).drop_first(),
                    buffer_size,
                ));
                assert(run_completions(s2, Seq::<Completion>::empty(), buffer_size) == (
                    s2,
                    Option::<FatalError>::None,
                ));
            },
            Err(e) => {
                assert(events.first() == events[0]);
                assert(run_completions(s0, events, buffer_size) == (s0, Some(e)));
            },
        }
    } else {
        let t = events.take(i);
        assert(t.len() == i);
        assert(t.first() == events[0]);
        let s_i = run_completions(s0, t, buffer_size).0;
        match completion_step(s0, events[0], buffer_size) {
            Ok(s1) => {
                assert(t.drop_first() =~= events.drop_first().take(i - 1));
                assert(run_completions(s0, t, buffer_size) == run_completions(
                    s1,
                    events.drop_first().take(i - 1),
                    buffer_size,
                ));
                lemma_run_completions_snoc(s1, events.drop_first(), i - 1, buffer_size);
                assert(events.drop_first()[i - 1] == events[i]);
                match completion_step(s_i, events[i], buffer_size) {
                    Ok(s2) => {
                        assert(run_completions(s1, events.drop_first().take(i), buffer_size)
                            == (s2, Option::<FatalError>::None));
                        assert(events.take(i + 1).len() == i + 1);
                        assert(events.take(i + 1).first() == events[0]);
                        assert(events.take(i + 1).drop_first() =~= events.drop_first().take(i));
                        assert(run_completions(s0, events.take(i + 1), buffer_size)
                            == run_completions(s1, events.take(i + 1).drop_first(), buffer_size));
                    },
                    Err(e) => {
                        assert(run_completions(s1, events.drop_first(), buffer_size) == (
                            s_i,
                            Some(e),
                        ));
                        assert(events.first() == events[0]);
                        assert(run_completions(s0, events, buffer_size) == run_completions(
                            s1,
                            events.drop_first(),
                            buffer_size,
                        ));
                    },
                }
            },
            Err(e) => {
                assert(run_completions(s0, t, buffer_size).1 is Some);
            },
        }
    }
}

/// What one poll of the completion pipeline does with the batch it drained:
/// the stores change exactly as `run_completions` folds the events, the
/// receive credits consumed equal the receive completions dispatched, and
/// the first fatal event, if any, is returned.
pub open spec fn completions_rel(
    pre: ConnectionEngine,
    post: ConnectionEngine,
    events: Seq<Completion>,
    r: Result<(), FatalError>,
) -> bool {
    let out = run_completions(pre.completion_ledger(), events, pre.config.buffer_size as int);
    &&& post.outgoing_pending@ == out.0.outgoing
    &&& post.incoming_pending@ == out.0.incoming
    &&& post.completed_pushes@ == out.0.completed_pushes
    &&& pops_view(post.completed_pops@) == out.0.completed_pops
    &&& r == (match out.1 {
        Option::<FatalError>::None => Ok::<(), FatalError>(()),
        Option::<FatalError>::Some(e) => Err::<(), FatalError>(e),
    })
    &&& post.control_flow == (ControlFlow {
        recv_posted: (pre.control_flow.recv_posted - out.0.recv_completed) as u64,
        ..pre.control_flow
    })
    &&& post.pool == pre.pool
    &&& post.send_queue == pre.send_queue
    &&& post.user_held == pre.user_held
    &&& post.work_id_counter == pre.work_id_counter
    &&& post.actions == pre.actions
    &&& post.config == pre.config
}

/// Byte-for-byte copy of a vector's contents.
fn copy_bytes(v: &Vec<u8>) -> (r: Vec<u8>)
    ensures
        r@ == v@,
{
    let mut out: Vec<u8> = Vec::new();
    let mut i: usize = 0;
    while i < v.len()
        invariant
            i <= v@.len(),
            out@ =~= v@.take(i as int),
        decreases v@.len() - i,
    {
        out.push(v[i]);
        i = i + 1;
    }
    proof {
        assert(out@ =~= v@);
    }
    out
}

impl ConnectionEngine {
    /// The current stores as the completion pipeline sees them, with no
    /// receive completions counted yet.
    pub open spec fn completion_ledger(self) -> CompletionLedger {
        CompletionLedger {
            outgoing: self.outgoing_pending@,
            incoming: self.incoming_pending@,
            completed_pushes: self.completed_pushes@,
            completed_pops: pops_view(self.completed_pops@),
            recv_completed: 0,
        }
    }

    /// One poll of the recv-refill pipeline. Returns how many receives were
    /// posted, or `PoolExhausted` when a due refill cannot be covered.
    pub fn poll_recv_refill(&mut self) -> (r: Result<usize, QueueError>)
        requires
            old(self).wf(),
        ensures
            final(self).wf(),
            refill_rel(*old(self), *final(self), r),
    {
        let posted: u64 = self.control_flow.remaining_recv_credits();
        let low: usize = (self.config.window_size + 1) / 2;
        if posted >= (low as u64) {
            return Ok(0);
        }
        let cap_left: usize = self.config.recv_wrs - (posted as usize);
        let n: usize = if self.config.window_size <= cap_left {
            self.config.window_size
        } else {
            cap_left
        };
        if self.work_id_counter > u64::MAX - (n as u64) {
            return Ok(0);
        }
        if self.pool.len() < n {
            return Err(QueueError::PoolExhausted);
        }
        let start: u64 = self.work_id_counter;
        let mut ids: Vec<u64> = Vec::new();
        let mut i: usize = 0;
        while i < n
            invariant
                0 < n == old(self).refill_amount(),
                start == old(self).work_id_counter,
                start + n <= u64::MAX,
                0 <= i <= n,
                n <= old(self).pool@.len(),
                (ConnectionEngine { work_id_counter: ((start + i) as u64), ..*self }).wf_core(),
                self.pool@ == old(self).pool@.skip(i as int),
                self.incoming_pending@ == old(self).incoming_pending@.union_prefer_right(
                    pin_map(recv_pairs(start, old(self).pool@.take(i as int))),
                ),
                self.incoming_pending@.len() == old(self).incoming_pending@.len() + i,
                ids@ == Seq::new(i as nat, |k: int| ((start + k) as u64)),
                self.control_flow == old(self).control_flow,
                self.send_queue == old(self).send_queue,
                self.outgoing_pending == old(self).outgoing_pending,
                self.completed_pushes == old(self).completed_pushes,
                self.completed_pops == old(self).completed_pops,
                self.user_held == old(self).user_held,
                self.work_id_counter == old(self).work_id_counter,
                self.config == old(self).config,
                self.actions == old(self).actions,
            decreases n - i,
        {
            proof {
                assert(self.pool@.len() > 0);
                assert(self.pool@[0] == old(self).pool@[i as int]);
            }
            let buffer = self.pool.pop_front().unwrap();
            let id: u64 = start + (i as u64);
            ids.push(id);
            proof {
                let p = old(self).pool@;
                assert(p.skip(i as int).subrange(1, p.skip(i as int).len() as int) =~= p.skip(
                    i as int + 1,
                ));
                let pairs = recv_pairs(start, p.take(i as int));
                lemma_pin_map_membership(pairs, id);
                assert(forall|k: int| 0 <= k < i ==> (#[trigger] pairs[k]).0 == start + k);
                assert(!pin_map(pairs).dom().contains(id));
                assert(!self.incoming_pending@.dom().contains(id));
            }
            self.incoming_pending.insert(id, buffer);
            proof {
                let p = old(self).pool@;
                let pairs = recv_pairs(start, p.take(i as int));
                assert(recv_pairs(start, p.take(i as int + 1)) =~= pairs.push(
                    (id, p[i as int]),
                ));
                lemma_pin_map_push(pairs, (id, p[i as int]));
                assert(self.incoming_pending@ =~= old(
                    self,
                ).incoming_pending@.union_prefer_right(
                    pin_map(recv_pairs(start, p.take(i as int + 1))),
                ));
                assert(ids@ =~= Seq::new((i + 1) as nat, |k: int| ((start + k) as u64)));
            }
            i = i + 1;
        }
        self.work_id_counter = start + (n as u64);
        self.actions.push(Action::PostReceives(ids));
        self.control_flow.add_recv_credits(n as u64);
        let granted = self.control_flow.take_outbox();
        self.actions.push(Action::GrantCredits(granted));
        proof {
            let pre = *old(self);
            assert(self.pool@ == pre.pool@.skip(n as int));
            assert(self.actions@.take(pre.actions@.len() as int) =~= pre.actions@);
            assert(self.actions@[pre.actions@.len() as int] == Action::PostReceives(ids));
            // every identifier in use stays below the advanced counter
            assert forall|id: u64| #[trigger]
                self.incoming_pending@.dom().contains(id) implies id
                < self.work_id_counter by {
                lemma_pin_map_membership(
                    recv_pairs(start, pre.pool@.take(n as int)),
                    id,
                );
            }
            assert(refill_rel(pre, *self, Ok::<usize, QueueError>(n)));
        }
        Ok(n)
    }

    /// One poll of the completion pipeline over the batch the driver
    /// drained from the completion queue. Dispatches every event in order,
    /// stops at the first fatal one, and consumes one receive credit per
    /// receive completion dispatched.
    pub fn handle_completions(&mut self, events: &Vec<Completion>) -> (r: Result<(), FatalError>)
        requires
            old(self).wf(),
        ensures
            final(self).wf(),
            completions_rel(*old(self), *final(self), events@, r),
    {
        let ghost bs: int = old(self).config.buffer_size as int;
        let ghost s0 = old(self).completion_ledger();
        let mut recv_count: usize = 0;
        let mut i: usize = 0;
        let n = events.len();
        while i < n
            invariant
                0 <= i <= n,
                n == events@.len(),
                bs == old(self).config.buffer_size as int,
                s0 == old(self).completion_ledger(),
                old(self).wf(),
                run_completions(s0, events@.take(i as int), bs).1 is None,
                ({
                    let s_i = run_completions(s0, events@.take(i as int), bs).0;
                    &&& self.outgoing_pending@ == s_i.outgoing
                    &&& self.incoming_pending@ == s_i.incoming
                    &&& self.completed_pushes@ == s_i.completed_pushes
                    &&& pops_view(self.completed_pops@) == s_i.completed_pops
                    &&& recv_count == s_i.recv_completed
                }),
                recv_count + self.incoming_pending@.len() == old(self).incoming_pending@.len(),
                recv_count <= i,
                self.wf_core(),
                self.control_flow == old(self).control_flow,
                self.pool == old(self).pool,
                self.send_queue == old(self).send_queue,
                self.user_held == old(self).user_held,
                self.work_id_counter == old(self).work_id_counter,
                self.actions == old(self).actions,
                self.config == old(self).config,
            decreases n - i,
        {
            proof {
                lemma_run_completions_snoc(s0, events@, i as int, bs);
            }
            let c: &Completion = &events[i];
            if !c.success {
                self.control_flow.consume_recv_credits(recv_count as u64);
                return Err(FatalError::UnsuccessfulCompletion);
            }
            match c.opcode {
                CompletionOpcode::Recv => {
                    if !self.incoming_pending.contains_key(&c.work_id) {
                        self.control_flow.consume_recv_credits(recv_count as u64);
                        return Err(FatalError::UnknownWorkId);
                    }
                    if c.bytes.len() > self.config.buffer_size {
                        self.control_flow.consume_recv_credits(recv_count as u64);
                        return Err(FatalError::UnsuccessfulCompletion);
                    }
                    let buffer = self.incoming_pending.remove(&c.work_id).unwrap();
                    let bytes = copy_bytes(&c.bytes);
                    self.completed_pops.push_back(PopCompletion { buffer, bytes });
                    recv_count = recv_count + 1;
                    proof {
                        let s_i = run_completions(s0, events@.take(i as int), bs).0;
                        assert(pops_view(self.completed_pops@) =~= s_i.completed_pops.push(
                            (s_i.incoming[c.work_id], c.bytes@),
                        ));
                    }
                },
                CompletionOpcode::Send => {
                    if !self.outgoing_pending.contains_key(&c.work_id) {
                        self.control_flow.consume_recv_credits(recv_count as u64);
                        return Err(FatalError::UnknownWorkId);
                    }
                    if self.completed_pushes.contains_key(&c.work_id) {
                        self.control_flow.consume_recv_credits(recv_count as u64);
                        return Err(FatalError::DuplicateWorkId);
                    }
                    let buffer = self.outgoing_pending.remove(&c.work_id).unwrap();
                    self.completed_pushes.insert(c.work_id, buffer);
                },
                CompletionOpcode::RdmaWrite => {},
                CompletionOpcode::RdmaRead => {},
                CompletionOpcode::Unknown => {
                    self.control_flow.consume_recv_credits(recv_count as u64);
                    return Err(FatalError::UnknownOpcode);
                },
            }
            i = i + 1;
        }
        proof {
            assert(events@.take(n as int) =~= events@);
        }
        self.control_flow.consume_recv_credits(recv_count as u64);
        Ok(())
    }

    /// Whether the send under this identifier has completed and waits to be
    /// surfaced.
    pub fn has_completed_push(&self, work_id: u64) -> (r: bool)
        requires
            self.wf(),
        ensures
            r == self.completed_pushes@.dom().contains(work_id),
    {
        self.completed_pushes.contains_key(&work_id)
    }

    /// Whether a received message waits to be surfaced by a pop token.
    pub fn has_completed_pop(&self) -> (r: bool)
        requires
            self.wf(),
        ensures
            r == (self.completed_pops@.len() > 0),
    {
        self.completed_pops.len() > 0
    }

    /// Surface a completed push: hand the submitted buffer back to the user
    /// if the send under this identifier has completed.
    pub fn take_completed_push(&mut self, work_id: u64) -> (r: Option<Buffer>)
        requires
            old(self).wf(),
        ensures
            final(self).wf(),
            take_push_rel(*old(self), *final(self), work_id, r),
    {
        if !self.completed_pushes.contains_key(&work_id) {
            return None;
        }
        let b = self.completed_pushes.remove(&work_id).unwrap();
        self.user_held = self.user_held + 1;
        Some(b)
    }

    /// Surface a completed pop: return the oldest received message as a
    /// buffer whose valid bytes are exactly what the peer transmitted. Pop
    /// tokens carry no identity; any token takes the next message.
    pub fn take_completed_pop(&mut self) -> (r: Option<Buffer>)
        requires
            old(self).wf(),
        ensures
            final(self).wf(),
            take_pop_rel(*old(self), *final(self), r),
    {
        if self.completed_pops.len() == 0 {
            return None;
        }
        let p = self.completed_pops.pop_front().unwrap();
        let mut buffer = p.buffer;
        let count = p.bytes.len();
        let mut i: usize = 0;
        while i < count
            invariant
                buffer.wf(),
                buffer.capacity() == old(self).config.buffer_size,
                count == p.bytes@.len(),
                count <= buffer.capacity(),
                0 <= i <= count,
                forall|j: int| 0 <= j < i ==> buffer.data@[j] == p.bytes@[j],
            decreases count - i,
        {
            buffer.write(i, p.bytes[i]);
            i = i + 1;
        }
        buffer.set_length(count);
        proof {
            assert(buffer@ =~= p.bytes@);
        }
        self.user_held = self.user_held + 1;
        Some(buffer)
    }

    /// The peer wrote `n` fresh send credits into our grant inbox.
    pub fn deliver_peer_grant(&mut self, n: u64)
        requires
            old(self).wf(),
            old(self).control_flow.grant_inbox + n <= u64::MAX,
        ensures
            final(self).wf(),
            grant_rel(*old(self), *final(self), n),
    {
        self.control_flow.receive_peer_grant(n);
    }

    /// Hand the recorded decisions to the driver, leaving none behind.
    pub fn take_actions(&mut self) -> (r: Vec<Action>)
        requires
            old(self).wf(),
        ensures
            final(self).wf(),
            take_actions_rel(*old(self), *final(self), r),
    {
        let mut out: Vec<Action> = Vec::new();
        core::mem::swap(&mut out, &mut self.actions);
        out
    }
}

/// What submitting a push does: the buffer is queued under a fresh
/// identifier and the push pipeline is polled once.
pub open spec fn submit_push_rel(
    pre: ConnectionEngine,
    post: ConnectionEngine,
    buffer: Buffer,
    id: u64,
) -> bool {
    exists|mid: ConnectionEngine, posted: int|
        #![all_triggers]
        push_rel(pre, mid, buffer, id) && poll_push_rel(mid, post, posted)
}

/// What one scheduling round does to a connection: the push pipeline and
/// then the recv-refill pipeline are polled once each.
pub open spec fn pipelines_rel(pre: ConnectionEngine, post: ConnectionEngine) -> bool {
    exists|mid: ConnectionEngine, posted: int, refilled: Result<usize, QueueError>|
        #![all_triggers]
        poll_push_rel(pre, mid, posted) && refill_rel(mid, post, refilled)
}

impl ConnectionEngine {
    /// Accept a user push and poll the push pipeline once, as the scheduler
    /// does for every `push` call.
    pub fn submit_push(&mut self, buffer: Buffer) -> (r: u64)
        requires
            old(self).wf(),
            old(self).user_held >= 1,
            buffer.wf(),
            buffer.capacity() == old(self).config.buffer_size,
            old(self).work_id_counter < u64::MAX,
        ensures
            final(self).wf(),
            r == old(self).work_id_counter,
            submit_push_rel(*old(self), *final(self), buffer, r),
    {
        let work_id = self.push(buffer);
        let ghost mid = *self;
        let posted = self.poll_push();
        proof {
            assert(push_rel(*old(self), mid, buffer, work_id));
            assert(poll_push_rel(mid, *self, posted as int));
        }
        work_id
    }

    /// Poll the push and recv-refill pipelines once each; both suspend on
    /// their own when they have nothing to do.
    pub fn poll_pipelines(&mut self)
        requires
            old(self).wf(),
        ensures
            final(self).wf(),
            pipelines_rel(*old(self), *final(self)),
    {
        let posted = self.poll_push();
        let ghost mid = *self;
        let refilled = self.poll_recv_refill();
        proof {
            assert(poll_push_rel(*old(self), mid, posted as int));
            assert(refill_rel(mid, *self, refilled));
        }
    }
}

/// The buffer queued under an identifier, if any.
pub open spec fn queue_find(q: Seq<SendRequest>, id: u64) -> Option<Buffer>
    decreases q.len(),
{
    if q.len() == 0 {
        None
    } else if q.first().work_id == id {
        Some(q.first().buffer)
    } else {
        queue_find(q.drop_first(), id)
    }
}

pub proof fn lemma_queue_find_at(q: Seq<SendRequest>, i: int)
    requires
        0 <= i < q.len(),
        forall|j: int, k: int|
            0 <= j < k < q.len() ==> (#[trigger] q[j]).work_id != (#[trigger] q[k]).work_id,
    ensures
        queue_find(q, q[i].work_id) == Some(q[i].buffer),
    decreases i,
{
    if i > 0 {
        assert(q.first().work_id != q[i].work_id);
        lemma_queue_find_at(q.drop_first(), i - 1);
        assert(q.drop_first()[i - 1] == q[i]);
    }
}

pub proof fn lemma_queue_find_absent(q: Seq<SendRequest>, id: u64)
    requires
        forall|j: int| 0 <= j < q.len() ==> (#[trigger] q[j]).work_id != id,
    ensures
        queue_find(q, id) is None,
    decreases q.len(),
{
    if q.len() > 0 {
        lemma_queue_find_absent(q.drop_first(), id);
    }
}

pub proof fn lemma_queue_find_some_means_present(q: Seq<SendRequest>, id: u64)
    requires
        queue_find(q, id) is Some,
    ensures
        exists|i: int| 0 <= i < q.len() && (#[trigger] q[i]).work_id == id,
    decreases q.len(),
{
    if q.len() > 0 {
        if q.first().work_id != id {
            lemma_queue_find_some_means_present(q.drop_first(), id);
            let i = choose|i: int|
                0 <= i < q.drop_first().len() && (#[trigger] q.drop_first()[i]).work_id == id;
            assert(q[i + 1].work_id == id);
        } else {
            assert(q[0].work_id == id);
        }
    }
}

pub proof fn lemma_pin_map_lookup(pairs: Seq<(u64, Buffer)>, i: int)
    requires
        0 <= i < pairs.len(),
        forall|j: int, k: int|
            0 <= j < k < pairs.len() ==> (#[trigger] pairs[j]).0 != (#[trigger] pairs[k]).0,
    ensures
        pin_map(pairs).dom().contains(pairs[i].0),
        pin_map(pairs)[pairs[i].0] == pairs[i].1,
    decreases pairs.len(),
{
    if i < pairs.len() - 1 {
        lemma_pin_map_lookup(pairs.drop_last(), i);
        assert(pairs.drop_last()[i] == pairs[i]);
        assert(pairs.last().0 != pairs[i].0);
    }
}

impl ConnectionEngine {
    /// Where the buffer submitted under a push identifier currently lives:
    /// still queued, pinned to a posted send, or completed and waiting to be
    /// surfaced. `None` once `wait` has returned it, or if the identifier
    /// was never pushed.
    pub open spec fn push_record(self, id: u64) -> Option<Buffer> {
        if queue_find(self.send_queue@, id) is Some {
            queue_find(self.send_queue@, id)
        } else if self.outgoing_pending@.dom().contains(id) {
            Some(self.outgoing_pending@[id])
        } else if self.completed_pushes@.dom().contains(id) {
            Some(self.completed_pushes@[id])
        } else {
            None
        }
    }
}

/// A push records the submitted buffer under its token's identifier and
/// disturbs no other record.
pub proof fn lemma_push_sets_record(
    pre: ConnectionEngine,
    post: ConnectionEngine,
    buffer: Buffer,
    id: u64,
)
    requires
        pre.wf(),
        push_rel(pre, post, buffer, id),
    ensures
        post.push_record(id) == Some(buffer),
        forall|other: u64| other != id ==> post.push_record(other) == pre.push_record(other),
{
    let q = pre.send_queue@;
    let q2 = post.send_queue@;
    assert(q2 == q.push((SendRequest { work_id: id, buffer })));
    assert(forall|j: int, k: int|
        0 <= j < k < q2.len() ==> (#[trigger] q2[j]).work_id != (#[trigger] q2[k]).work_id);
    lemma_queue_find_at(q2, q.len() as int);
    assert forall|other: u64| other != id implies post.push_record(other) == pre.push_record(
        other,
    ) by {
        if exists|i: int| 0 <= i < q.len() && (#[trigger] q[i]).work_id == other {
            let i = choose|i: int| 0 <= i < q.len() && (#[trigger] q[i]).work_id == other;
            lemma_queue_find_at(q, i);
            lemma_queue_find_at(q2, i);
        } else {
            lemma_queue_find_absent(q, other);
            lemma_queue_find_absent(q2, other);
        }
    }
}

/// One poll of the push pipeline moves buffers between stages without
/// changing what any identifier's record holds.
pub proof fn lemma_poll_push_preserves_records(
    pre: ConnectionEngine,
    post: ConnectionEngine,
    posted: int,
)
    requires
        pre.wf(),
        poll_push_rel(pre, post, posted),
    ensures
        forall|id: u64| post.push_record(id) == pre.push_record(id),
{
    let q = pre.send_queue@;
    if pre.adopted_send_credits() == 0 || q.len() == 0 {
    } else {
        let n = pre.push_batch_len();
        let pairs = queue_pairs(q.take(n));
        assert(pairs.len() == n);
        assert(forall|k: int| 0 <= k < n ==> (#[trigger] pairs[k]).0 == q[k].work_id);
        assert(forall|k: int| 0 <= k < n ==> (#[trigger] pairs[k]).1 == q[k].buffer);
        assert forall|id: u64| post.push_record(id) == pre.push_record(id) by {
            if exists|i: int| 0 <= i < q.len() && (#[trigger] q[i]).work_id == id {
                let i = choose|i: int| 0 <= i < q.len() && (#[trigger] q[i]).work_id == id;
                lemma_queue_find_at(q, i);
                if i < n {
                    // moved from the queue into the outgoing-pending map
                    assert(forall|j: int|
                        0 <= j < q.skip(n).len() ==> (#[trigger] q.skip(n)[j]).work_id != id);
                    lemma_queue_find_absent(q.skip(n), id);
                    lemma_pin_map_lookup(pairs, i);
                    assert(post.outgoing_pending@[id] == q[i].buffer);
                } else {
                    // still queued, n positions earlier
                    lemma_queue_find_at(q.skip(n), i - n);
                    assert(q.skip(n)[i - n] == q[i]);
                }
            } else {
                lemma_queue_find_absent(q, id);
                assert(forall|j: int|
                    0 <= j < q.skip(n).len() ==> (#[trigger] q.skip(n)[j]).work_id != id);
                lemma_queue_find_absent(q.skip(n), id);
                lemma_pin_map_membership(pairs, id);
                assert(!pin_map(pairs).dom().contains(id));
                assert(post.outgoing_pending@.dom().contains(id)
                    == pre.outgoing_pending@.dom().contains(id));
                if pre.outgoing_pending@.dom().contains(id) {
                    assert(post.outgoing_pending@[id] == pre.outgoing_pending@[id]);
                }
            }
        }
    }
}

/// An identifier with no pinned or completed push never acquires one
/// through the completion pipeline.
pub proof fn lemma_absent_push_stays_absent(
    s0: CompletionLedger,
    events: Seq<Completion>,
    buffer_size: int,
    id: u64,
)
    requires
        !s0.outgoing.dom().contains(id),
        !s0.completed_pushes.dom().contains(id),
    ensures
        ({
            let s1 = run_completions(s0, events, buffer_size).0;
            !s1.outgoing.dom().contains(id) && !s1.completed_pushes.dom().contains(id)
        }),
    decreases events.len(),
{
    if events.len() > 0 {
        match completion_step(s0, events.first(), buffer_size) {
            Ok(s2) => {
                lemma_absent_push_stays_absent(s2, events.drop_first(), buffer_size, id);
            },
            Err(e) => {},
        }
    }
}

/// The completion pipeline never changes what a push identifier's record
/// holds: a pinned buffer either stays pinned or moves, unchanged, to the
/// completed store.
pub proof fn lemma_completions_preserve_records(
    pre: ConnectionEngine,
    post: ConnectionEngine,
    events: Seq<Completion>,
    r: Result<(), FatalError>,
)
    requires
        pre.wf(),
        completions_rel(pre, post, events, r),
    ensures
        forall|id: u64| post.push_record(id) == pre.push_record(id),
{
    let bs = pre.config.buffer_size as int;
    let s0 = pre.completion_ledger();
    assert forall|id: u64| post.push_record(id) == pre.push_record(id) by {
        if queue_find(pre.send_queue@, id) is Some {
            lemma_queue_find_some_means_present(pre.send_queue@, id);
            assert(!pre.outgoing_pending@.dom().contains(id));
            assert(!pre.completed_pushes@.dom().contains(id));
            lemma_absent_push_stays_absent(s0, events, bs, id);
        } else if pre.outgoing_pending@.dom().contains(id) {
            lemma_push_buffer_preserved(s0, events, bs, id);
        } else if pre.completed_pushes@.dom().contains(id) {
            lemma_completed_push_stable(s0, events, bs, id);
        } else {
            lemma_absent_push_stays_absent(s0, events, bs, id);
        }
    }
}

/// The recv-refill pipeline touches only the pool and the receive side;
/// push records are untouched.
pub proof fn lemma_refill_preserves_records(
    pre: ConnectionEngine,
    post: ConnectionEngine,
    r: Result<usize, QueueError>,
)
    requires
        refill_rel(pre, post, r),
    ensures
        forall|id: u64| post.push_record(id) == pre.push_record(id),
{
}

/// One scheduling round - polling the push and recv-refill pipelines, as
/// `wait` does while an operation is outstanding - never disturbs a push
/// record or a completed store: nothing a token waits for is lost by
/// waiting.
pub proof fn lemma_pipelines_preserve_records(pre: ConnectionEngine, post: ConnectionEngine)
    requires
        pre.wf(),
        pipelines_rel(pre, post),
    ensures
        forall|id: u64| post.push_record(id) == pre.push_record(id),
        post.completed_pushes == pre.completed_pushes,
        post.completed_pops == pre.completed_pops,
        post.user_held == pre.user_held,
{
    let (mid, posted, refilled) = choose|
        mid: ConnectionEngine,
        posted: int,
        refilled: Result<usize, QueueError>,
    |
        #![all_triggers]
        poll_push_rel(pre, mid, posted) && refill_rel(mid, post, refilled);
    lemma_poll_push_preserves_records(pre, mid, posted);
    lemma_refill_preserves_records(mid, post, refilled);
}

/// Waiting on a completed push token surfaces exactly the recorded buffer -
/// byte-identical to the buffer submitted by `push` - and clears the
/// record.
pub proof fn lemma_take_push_surfaces_record(
    pre: ConnectionEngine,
    post: ConnectionEngine,
    id: u64,
    r: Option<Buffer>,
)
    requires
        pre.wf(),
        take_push_rel(pre, post, id, r),
        pre.completed_pushes@.dom().contains(id),
    ensures
        r == pre.push_record(id),
        post.push_record(id) is None,
{
    assert(forall|j: int|
        0 <= j < pre.send_queue@.len() ==> (#[trigger] pre.send_queue@[j]).work_id != id);
    lemma_queue_find_absent(pre.send_queue@, id);
}

/// Received messages keep wire order: the completion pipeline only appends
/// to the completed-pops store, so earlier messages surface first.
pub proof fn lemma_pops_keep_wire_order(
    s0: CompletionLedger,
    events: Seq<Completion>,
    buffer_size: int,
)
    ensures
        ({
            let s1 = run_completions(s0, events, buffer_size).0;
            &&& s1.completed_pops.len() >= s0.completed_pops.len()
            &&& s1.completed_pops.take(s0.completed_pops.len() as int) == s0.completed_pops
        }),
    decreases events.len(),
{
    if events.len() == 0 {
        assert(s0.completed_pops.take(s0.completed_pops.len() as int) =~= s0.completed_pops);
    } else {
        match completion_step(s0, events.first(), buffer_size) {
            Ok(s2) => {
                lemma_pops_keep_wire_order(s2, events.drop_first(), buffer_size);
                let s1 = run_completions(s0, events, buffer_size).0;
                assert(s2.completed_pops.take(s0.completed_pops.len() as int)
                    =~= s0.completed_pops);
                assert(s1.completed_pops.take(s0.completed_pops.len() as int)
                    =~= s1.completed_pops.take(s2.completed_pops.len() as int).take(
                    s0.completed_pops.len() as int,
                ));
            },
            Err(e) => {
                assert(s0.completed_pops.take(s0.completed_pops.len() as int)
                    =~= s0.completed_pops);
            },
        }
    }
}

/// No work identifier is used for two concurrently outstanding operations:
/// the queued identifiers are distinct, no queued identifier is pending,
/// and the outgoing- and incoming-pending identifier sets are disjoint.
pub proof fn lemma_outstanding_work_ids_unique(e: ConnectionEngine)
    requires
        e.wf(),
    ensures
        forall|i: int, j: int|
            0 <= i < j < e.send_queue@.len() ==> (#[trigger] e.send_queue@[i]).work_id != (
            #[trigger] e.send_queue@[j]).work_id,
        forall|i: int|
            0 <= i < e.send_queue@.len() ==> !e.outgoing_pending@.dom().contains(
                (#[trigger] e.send_queue@[i]).work_id,
            ) && !e.incoming_pending@.dom().contains(e.send_queue@[i].work_id),
        e.outgoing_pending@.dom().disjoint(e.incoming_pending@.dom()),
{
}

/// The connection's buffers are conserved: the pool, the queued sends, the
/// outgoing- and incoming-pending maps, the two completed stores and the
/// user's hands together always hold exactly twice the window size.
pub proof fn lemma_buffer_conservation(e: ConnectionEngine)
    requires
        e.wf(),
    ensures
        e.pool@.len() + e.send_queue@.len() + e.outgoing_pending@.len()
            + e.incoming_pending@.len() + e.completed_pushes@.len() + e.completed_pops@.len()
            + e.user_held == 2 * e.config.window_size,
{
}

/// The engine never has more receives posted than the adapter capacity
/// allows.
pub proof fn lemma_recv_window_bounded(e: ConnectionEngine)
    requires
        e.wf(),
    ensures
        e.control_flow.recv_posted <= e.config.recv_wrs,
        e.incoming_pending@.len() <= e.config.recv_wrs,
{
}

/// With a window of one the engine serializes its receive side: at most one
/// receive is outstanding at any time.
pub proof fn lemma_window_one_serializes_receives(e: ConnectionEngine)
    requires
        e.wf(),
        e.config.window_size == 1,
    ensures
        e.control_flow.recv_posted <= 1,
        e.incoming_pending@.len() <= 1,
{
}

/// The push pipeline never posts more sends than it has credits for, so the
/// send-credit count is never decremented below zero.
pub proof fn lemma_send_credits_never_negative(
    pre: ConnectionEngine,
    post: ConnectionEngine,
    posted: int,
)
    requires
        pre.wf(),
        poll_push_rel(pre, post, posted),
    ensures
        0 <= posted <= pre.adopted_send_credits(),
        post.control_flow.send_credits == pre.adopted_send_credits() - posted,
{
}

/// Below the low-water mark the refill fires: unless the pool cannot cover
/// the batch or the identifier space is exhausted, one poll of the
/// recv-refill pipeline brings the posted receives back to the low-water
/// mark or above, so receives are never silently exhausted.
pub proof fn lemma_low_water_refill(
    pre: ConnectionEngine,
    post: ConnectionEngine,
    r: Result<usize, QueueError>,
)
    requires
        pre.wf(),
        refill_rel(pre, post, r),
        pre.control_flow.recv_posted < pre.config.low_water(),
        pre.pool@.len() >= pre.refill_amount(),
        pre.work_id_counter + pre.refill_amount() <= u64::MAX,
    ensures
        r == Ok::<usize, QueueError>(pre.refill_amount() as usize),
        post.control_flow.recv_posted >= pre.config.low_water(),
{
}

/// A buffer pinned to an outstanding send is carried through the completion
/// pipeline unchanged: after any batch, the identifier is still pending with
/// the same buffer, or completed with the same buffer, never both.
pub proof fn lemma_push_buffer_preserved(
    s0: CompletionLedger,
    events: Seq<Completion>,
    buffer_size: int,
    id: u64,
)
    requires
        s0.outgoing.dom().contains(id),
        !s0.completed_pushes.dom().contains(id),
    ensures
        ({
            let s1 = run_completions(s0, events, buffer_size).0;
            ||| (s1.outgoing.dom().contains(id) && s1.outgoing[id] == s0.outgoing[id]
                && !s1.completed_pushes.dom().contains(id))
            ||| (s1.completed_pushes.dom().contains(id) && s1.completed_pushes[id]
                == s0.outgoing[id] && !s1.outgoing.dom().contains(id))
        }),
    decreases events.len(),
{
    if events.len() > 0 {
        match completion_step(s0, events.first(), buffer_size) {
            Ok(s2) => {
                if s2.outgoing.dom().contains(id) {
                    lemma_push_buffer_preserved(s2, events.drop_first(), buffer_size, id);
                } else {
                    lemma_completed_push_stable(s2, events.drop_first(), buffer_size, id);
                }
            },
            Err(e) => {},
        }
    }
}

/// Once a push is in the completed store, no further completion moves or
/// changes it.
pub proof fn lemma_completed_push_stable(
    s0: CompletionLedger,
    events: Seq<Completion>,
    buffer_size: int,
    id: u64,
)
    requires
        s0.completed_pushes.dom().contains(id),
        !s0.outgoing.dom().contains(id),
    ensures
        ({
            let s1 = run_completions(s0, events, buffer_size).0;
            s1.completed_pushes.dom().contains(id) && s1.completed_pushes[id]
                == s0.completed_pushes[id] && !s1.outgoing.dom().contains(id)
        }),
    decreases events.len(),
{
    if events.len() > 0 {
        match completion_step(s0, events.first(), buffer_size) {
            Ok(s2) => {
                lemma_completed_push_stable(s2, events.drop_first(), buffer_size, id);
            },
            Err(e) => {},
        }
    }
}

} // verus!
