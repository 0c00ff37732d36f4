use std::collections::VecDeque;

use io_queue_rdma::Action;
use io_queue_rdma::Completion;
use io_queue_rdma::CompletionOpcode;
use io_queue_rdma::Config;
use io_queue_rdma::ConnectionEngine;
use io_queue_rdma::FatalError;
use io_queue_rdma::IoQueue;
use io_queue_rdma::QueueDescriptor;
use io_queue_rdma::TaskHandle;

fn cfg(window_size: usize, recv_wrs: usize, buffer_size: usize) -> Config {
    Config { window_size, recv_wrs, buffer_size }
}

struct Endpoint {
    io: IoQueue,
    qd: QueueDescriptor,
    task: TaskHandle,
}

fn endpoint(config: Config) -> Endpoint {
    let mut io = IoQueue::new();
    let mut qd = QueueDescriptor::new();
    let task = io.add_new_connection(&mut qd, config);
    Endpoint { io, qd, task }
}

fn engine(ep: &Endpoint) -> &ConnectionEngine {
    &ep.io.executor.tasks[ep.task.0]
}

fn relay(
    src: &mut Endpoint,
    dst: &mut Endpoint,
    src_slots: &mut VecDeque<u64>,
    dst_slots: &mut VecDeque<u64>,
) {
    let actions = src.io.executor.take_actions(src.task);
    let mut src_events: Vec<Completion> = Vec::new();
    let mut dst_events: Vec<Completion> = Vec::new();
    for action in actions {
        match action {
            Action::PostReceives(ids) => {
                for id in ids {
                    src_slots.push_back(id);
                }
            }
            Action::PostSends(posts) => {
                for post in posts {
                    let slot = dst_slots
                        .pop_front()
                        .expect("a send was posted without a matching receive slot");
                    dst_events.push(Completion {
                        work_id: slot,
                        opcode: CompletionOpcode::Recv,
                        success: true,
                        bytes: post.bytes,
                    });
                    src_events.push(Completion {
                        work_id: post.work_id,
                        opcode: CompletionOpcode::Send,
                        success: true,
                        bytes: Vec::new(),
                    });
                }
            }
            Action::GrantCredits(n) => {
                if n > 0 {
                    dst.io.executor.deliver_peer_grant(dst.task, n);
                }
            }
        }
    }
    if !src_events.is_empty() {
        src.io
            .executor
            .deliver_completions(src.task, &src_events)
            .expect("loopback completions are well formed");
    }
    if !dst_events.is_empty() {
        dst.io
            .executor
            .deliver_completions(dst.task, &dst_events)
            .expect("loopback completions are well formed");
    }
}

// Credit starvation and recovery with a window of 4: the client can post
// only as many sends as the server has granted; further pushes queue up.
// Once the server begins popping, its refill fires, a new grant reaches the
// client, and the queued pushes are posted.
#[test]
fn credit_starvation_and_recovery() {
    let mut a = endpoint(cfg(4, 16, 1));
    let mut b = endpoint(cfg(4, 16, 1));
    let mut a_slots: VecDeque<u64> = VecDeque::new();
    let mut b_slots: VecDeque<u64> = VecDeque::new();
    relay(&mut a, &mut b, &mut a_slots, &mut b_slots);
    relay(&mut b, &mut a, &mut b_slots, &mut a_slots);

    // four pushes ride the server's initial grant and complete
    let mut first_tokens = Vec::new();
    for i in 0..4u8 {
        let mut m = a.io.malloc(&mut a.qd).unwrap();
        m.write(0, i);
        first_tokens.push(a.io.push(&mut a.qd, m).unwrap());
    }
    relay(&mut a, &mut b, &mut a_slots, &mut b_slots);
    for qt in first_tokens {
        let back = a.io.wait(qt).expect("the first window completes").push_op();
        a.io.free(&mut a.qd, back);
    }
    assert_eq!(a.io.executor.tasks[a.task.0].control_flow.send_credits, 0);

    // four more pushes have no credits: they queue and nothing is posted
    let mut stalled_tokens = Vec::new();
    for i in 4..8u8 {
        let mut m = a.io.malloc(&mut a.qd).unwrap();
        m.write(0, i);
        stalled_tokens.push(a.io.push(&mut a.qd, m).unwrap());
    }
    assert_eq!(engine(&a).send_queue.len(), 4);
    assert_eq!(engine(&a).outgoing_pending.len(), 0);
    let leaked = a.io.executor.take_actions(a.task);
    assert!(leaked.is_empty(), "no send may be posted without credits");
    assert!(a.io.wait(stalled_tokens[0]).is_none());

    // the server pops; servicing its completion queue refills the receive
    // window and sends a fresh grant out
    let qt_pop = b.io.pop(&mut b.qd).unwrap();
    let received = b.io.wait(qt_pop).expect("messages already arrived").pop_op();
    assert_eq!(received.read(0), 0);
    b.io.free(&mut b.qd, received);
    let refilled = b.io.executor.service_completion_queue(qt_pop).unwrap();
    assert_eq!(refilled, 4);
    assert!(engine(&b).incoming_pending.len() >= 2);
    relay(&mut b, &mut a, &mut b_slots, &mut a_slots);

    // the client adopts the fresh grant and drains its queue
    assert!(a.io.wait(stalled_tokens[0]).is_none());
    assert_eq!(engine(&a).send_queue.len(), 0);
    assert_eq!(engine(&a).outgoing_pending.len(), 4);
    relay(&mut a, &mut b, &mut a_slots, &mut b_slots);
    for qt in stalled_tokens {
        let back = a.io.wait(qt).expect("the queued window completes").push_op();
        a.io.free(&mut a.qd, back);
    }
}

// Posting consumes exactly as many credits as sends were posted.
#[test]
fn credits_decrease_with_posts() {
    let mut a = endpoint(cfg(4, 16, 1));
    let mut b = endpoint(cfg(4, 16, 1));
    let mut a_slots: VecDeque<u64> = VecDeque::new();
    let mut b_slots: VecDeque<u64> = VecDeque::new();
    relay(&mut a, &mut b, &mut a_slots, &mut b_slots);
    relay(&mut b, &mut a, &mut b_slots, &mut a_slots);

    let mut m = a.io.malloc(&mut a.qd).unwrap();
    m.write(0, 1);
    a.io.push(&mut a.qd, m).unwrap();
    // the grant of 4 was adopted and one credit was consumed by the post
    assert_eq!(engine(&a).control_flow.send_credits, 3);
    assert_eq!(engine(&a).control_flow.grant_inbox, 0);

    let mut m2 = a.io.malloc(&mut a.qd).unwrap();
    m2.write(0, 2);
    a.io.push(&mut a.qd, m2).unwrap();
    assert_eq!(engine(&a).control_flow.send_credits, 2);
}

// The receive window never exceeds the adapter capacity, even when it is
// smaller than a refill would like.
#[test]
fn receive_window_respects_adapter_capacity() {
    let ep = endpoint(cfg(4, 4, 1));
    assert_eq!(engine(&ep).incoming_pending.len(), 4);
    assert!(engine(&ep).control_flow.recv_posted <= 4);
}

// A completion with a failed status is fatal for the connection.
#[test]
fn failed_completion_is_fatal() {
    let mut ep = endpoint(cfg(2, 8, 4));
    let events = vec![Completion {
        work_id: 0,
        opcode: CompletionOpcode::Recv,
        success: false,
        bytes: Vec::new(),
    }];
    assert_eq!(
        ep.io.executor.deliver_completions(ep.task, &events).unwrap_err(),
        FatalError::UnsuccessfulCompletion
    );
}

// An opcode the engine does not know is fatal.
#[test]
fn unknown_opcode_is_fatal() {
    let mut ep = endpoint(cfg(2, 8, 4));
    let events = vec![Completion {
        work_id: 0,
        opcode: CompletionOpcode::Unknown,
        success: true,
        bytes: Vec::new(),
    }];
    assert_eq!(
        ep.io.executor.deliver_completions(ep.task, &events).unwrap_err(),
        FatalError::UnknownOpcode
    );
}

// A completion naming an identifier with no pending operation is fatal.
#[test]
fn unknown_work_id_is_fatal() {
    let mut ep = endpoint(cfg(2, 8, 4));
    let events = vec![Completion {
        work_id: 999,
        opcode: CompletionOpcode::Recv,
        success: true,
        bytes: Vec::new(),
    }];
    assert_eq!(
        ep.io.executor.deliver_completions(ep.task, &events).unwrap_err(),
        FatalError::UnknownWorkId
    );
    let send_events = vec![Completion {
        work_id: 999,
        opcode: CompletionOpcode::Send,
        success: true,
        bytes: Vec::new(),
    }];
    assert_eq!(
        ep.io.executor.deliver_completions(ep.task, &send_events).unwrap_err(),
        FatalError::UnknownWorkId
    );
}

// A receive reporting more bytes than the buffer holds is a fabric failure.
#[test]
fn oversized_receive_is_fatal() {
    let mut ep = endpoint(cfg(2, 8, 4));
    let events = vec![Completion {
        work_id: 0,
        opcode: CompletionOpcode::Recv,
        success: true,
        bytes: vec![0; 5],
    }];
    assert_eq!(
        ep.io.executor.deliver_completions(ep.task, &events).unwrap_err(),
        FatalError::UnsuccessfulCompletion
    );
}

// One-sided transfers of the control-flow machinery are acknowledged
// silently.
#[test]
fn one_sided_completions_are_silent() {
    let mut ep = endpoint(cfg(2, 8, 4));
    let events = vec![
        Completion { work_id: 7, opcode: CompletionOpcode::RdmaWrite, success: true, bytes: Vec::new() },
        Completion { work_id: 8, opcode: CompletionOpcode::RdmaRead, success: true, bytes: Vec::new() },
    ];
    assert!(ep.io.executor.deliver_completions(ep.task, &events).is_ok());
    assert_eq!(engine(&ep).completed_pops.len(), 0);
}

// Push completions surface keyed by work identifier: even when the
// completion queue reports them out of issue order, each token gets back
// exactly the buffer it submitted.
#[test]
fn push_completions_are_keyed_by_identifier() {
    let mut a = endpoint(cfg(4, 16, 1));
    let mut b = endpoint(cfg(4, 16, 1));
    let mut a_slots: VecDeque<u64> = VecDeque::new();
    let mut b_slots: VecDeque<u64> = VecDeque::new();
    relay(&mut a, &mut b, &mut a_slots, &mut b_slots);
    relay(&mut b, &mut a, &mut b_slots, &mut a_slots);

    let mut m0 = a.io.malloc(&mut a.qd).unwrap();
    m0.write(0, 100);
    let qt0 = a.io.push(&mut a.qd, m0).unwrap();
    let mut m1 = a.io.malloc(&mut a.qd).unwrap();
    m1.write(0, 101);
    let qt1 = a.io.push(&mut a.qd, m1).unwrap();

    // both sends are posted; report their completions in reverse order
    let actions = a.io.executor.take_actions(a.task);
    let mut ids = Vec::new();
    for action in actions {
        if let Action::PostSends(posts) = action {
            for post in posts {
                ids.push(post.work_id);
            }
        }
    }
    assert_eq!(ids.len(), 2);
    let events = vec![
        Completion { work_id: ids[1], opcode: CompletionOpcode::Send, success: true, bytes: Vec::new() },
        Completion { work_id: ids[0], opcode: CompletionOpcode::Send, success: true, bytes: Vec::new() },
    ];
    a.io.executor.deliver_completions(a.task, &events).unwrap();

    let back0 = a.io.wait(qt0).expect("first push completed").push_op();
    assert_eq!(back0.read(0), 100);
    let back1 = a.io.wait(qt1).expect("second push completed").push_op();
    assert_eq!(back1.read(0), 101);
    a.io.free(&mut a.qd, back0);
    a.io.free(&mut a.qd, back1);
}

// The refill pipeline suspends above the low-water mark: right after setup
// the window is full and servicing posts nothing.
#[test]
fn refill_suspends_above_low_water() {
    let mut ep = endpoint(cfg(4, 16, 1));
    let qt = ep.io.pop(&mut ep.qd).unwrap();
    assert_eq!(ep.io.executor.service_completion_queue(qt).unwrap(), 0);
    assert_eq!(engine(&ep).incoming_pending.len(), 4);
}

// Nothing is surfaced before a completion arrives, and polling leaves the
// stores untouched.
#[test]
fn wait_reports_nothing_before_completion() {
    let mut ep = endpoint(cfg(2, 8, 4));
    let qt = ep.io.pop(&mut ep.qd).unwrap();
    assert!(ep.io.wait(qt).is_none());
    let tokens = vec![qt];
    assert!(ep.io.wait_any(&tokens).is_none());
}

// Buffers stay conserved even when a fatal event stops the batch midway.
#[test]
fn conservation_survives_a_fatal_batch() {
    let mut ep = endpoint(cfg(2, 8, 4));
    let events = vec![
        Completion { work_id: 0, opcode: CompletionOpcode::Recv, success: true, bytes: vec![1] },
        Completion { work_id: 3, opcode: CompletionOpcode::Recv, success: true, bytes: vec![2] },
    ];
    assert_eq!(
        ep.io.executor.deliver_completions(ep.task, &events).unwrap_err(),
        FatalError::UnknownWorkId
    );
    let e = engine(&ep);
    let total = e.pool.len()
        + e.send_queue.len()
        + e.outgoing_pending.len()
        + e.incoming_pending.len()
        + e.completed_pushes.len()
        + e.completed_pops.len()
        + e.user_held;
    assert_eq!(total, 4);
    // the receive dispatched before the fatal event still surfaced
    assert_eq!(e.completed_pops.len(), 1);
}

// Work identifiers are never reused across outstanding operations: the
// queued, outgoing and incoming identifier sets stay pairwise disjoint.
#[test]
fn outstanding_identifiers_stay_distinct() {
    let mut a = endpoint(cfg(4, 16, 1));
    let mut b = endpoint(cfg(4, 16, 1));
    let mut a_slots: VecDeque<u64> = VecDeque::new();
    let mut b_slots: VecDeque<u64> = VecDeque::new();
    relay(&mut a, &mut b, &mut a_slots, &mut b_slots);
    relay(&mut b, &mut a, &mut b_slots, &mut a_slots);

    for i in 0..4u8 {
        let mut m = a.io.malloc(&mut a.qd).unwrap();
        m.write(0, i);
        a.io.push(&mut a.qd, m).unwrap();
    }
    let e = engine(&a);
    let mut seen = std::collections::HashSet::new();
    for id in e.outgoing_pending.keys() {
        assert!(seen.insert(*id));
    }
    for id in e.incoming_pending.keys() {
        assert!(seen.insert(*id));
    }
    for req in e.send_queue.iter() {
        assert!(seen.insert(req.work_id));
    }
}
