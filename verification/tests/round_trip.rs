use std::collections::VecDeque;

use io_queue_rdma::Action;
use io_queue_rdma::Completion;
use io_queue_rdma::CompletionOpcode;
use io_queue_rdma::CompletedRequest;
use io_queue_rdma::Config;
use io_queue_rdma::ConnectionEngine;
use io_queue_rdma::IoQueue;
use io_queue_rdma::QueueDescriptor;
use io_queue_rdma::QueueToken;
use io_queue_rdma::TaskHandle;

struct Endpoint {
    io: IoQueue,
    qd: QueueDescriptor,
    task: TaskHandle,
}

fn endpoint(config: Config) -> Endpoint {
    let mut io = IoQueue::new();
    let mut qd = QueueDescriptor::new();
    let task = io.add_new_connection(&mut qd, config);
    Endpoint { io, qd, task }
}

fn engine(ep: &Endpoint) -> &ConnectionEngine {
    &ep.io.executor.tasks[ep.task.0]
}

// Carry one side's pending engine decisions across the wire: receives it
// posts become its own slots, each send consumes one of the destination's
// slots and completes on both ends, and credit grants land in the
// destination's inbox.
fn relay(
    src: &mut Endpoint,
    dst: &mut Endpoint,
    src_slots: &mut VecDeque<u64>,
    dst_slots: &mut VecDeque<u64>,
) {
    let actions = src.io.executor.take_actions(src.task);
    let mut src_events: Vec<Completion> = Vec::new();
    let mut dst_events: Vec<Completion> = Vec::new();
    for action in actions {
        match action {
            Action::PostReceives(ids) => {
                for id in ids {
                    src_slots.push_back(id);
                }
            }
            Action::PostSends(posts) => {
                for post in posts {
                    let slot = dst_slots
                        .pop_front()
                        .expect("a send was posted without a matching receive slot");
                    dst_events.push(Completion {
                        work_id: slot,
                        opcode: CompletionOpcode::Recv,
                        success: true,
                        bytes: post.bytes,
                    });
                    src_events.push(Completion {
                        work_id: post.work_id,
                        opcode: CompletionOpcode::Send,
                        success: true,
                        bytes: Vec::new(),
                    });
                }
            }
            Action::GrantCredits(n) => {
                if n > 0 {
                    dst.io.executor.deliver_peer_grant(dst.task, n);
                }
            }
        }
    }
    if !src_events.is_empty() {
        src.io
            .executor
            .deliver_completions(src.task, &src_events)
            .expect("loopback completions are well formed");
    }
    if !dst_events.is_empty() {
        dst.io
            .executor
            .deliver_completions(dst.task, &dst_events)
            .expect("loopback completions are well formed");
    }
}

struct Pair {
    a: Endpoint,
    b: Endpoint,
    a_slots: VecDeque<u64>,
    b_slots: VecDeque<u64>,
}

fn connect_pair(config_a: Config, config_b: Config) -> Pair {
    let mut pair = Pair {
        a: endpoint(config_a),
        b: endpoint(config_b),
        a_slots: VecDeque::new(),
        b_slots: VecDeque::new(),
    };
    pair.pump();
    pair
}

impl Pair {
    fn pump(&mut self) {
        relay(&mut self.a, &mut self.b, &mut self.a_slots, &mut self.b_slots);
        relay(&mut self.b, &mut self.a, &mut self.b_slots, &mut self.a_slots);
    }

    fn wait_a(&mut self, qt: QueueToken) -> CompletedRequest {
        for _ in 0..64 {
            if let Some(c) = self.a.io.wait(qt) {
                return c;
            }
            self.pump();
        }
        panic!("token never completed");
    }

    fn wait_b(&mut self, qt: QueueToken) -> CompletedRequest {
        for _ in 0..64 {
            if let Some(c) = self.b.io.wait(qt) {
                return c;
            }
            self.pump();
        }
        panic!("token never completed");
    }
}

fn total_buffers(e: &ConnectionEngine) -> usize {
    e.pool.len()
        + e.send_queue.len()
        + e.outgoing_pending.len()
        + e.incoming_pending.len()
        + e.completed_pushes.len()
        + e.completed_pops.len()
        + e.user_held
}

fn cfg(window_size: usize, recv_wrs: usize, buffer_size: usize) -> Config {
    Config { window_size, recv_wrs, buffer_size }
}

// Connection setup posts a full window of receives and grants it to the
// peer in one batch.
#[test]
fn setup_posts_window_and_grants_it() {
    let mut io = IoQueue::new();
    let mut qd = QueueDescriptor::new();
    let task = io.add_new_connection(&mut qd, cfg(4, 16, 8));
    let actions = io.executor.take_actions(task);
    assert_eq!(actions.len(), 2);
    match &actions[0] {
        Action::PostReceives(ids) => assert_eq!(ids, &vec![0, 1, 2, 3]),
        _ => panic!("expected the receive posting first"),
    }
    match &actions[1] {
        Action::GrantCredits(n) => assert_eq!(*n, 4),
        _ => panic!("expected the credit grant second"),
    }
    let e = &io.executor.tasks[task.0];
    assert_eq!(e.incoming_pending.len(), 4);
    assert_eq!(e.pool.len(), 4);
}

// Single byte round-trip: the client pushes one byte, the server pops it
// and observes exactly that byte; the client gets its buffer back
// byte-identical to what it submitted.
#[test]
fn single_byte_round_trip() {
    let mut pair = connect_pair(cfg(4, 16, 1), cfg(4, 16, 1));

    let mut memory = pair.a.io.malloc(&mut pair.a.qd).unwrap();
    memory.write(0, 42);
    let submitted = memory.to_vec();
    let qt_push = pair.a.io.push(&mut pair.a.qd, memory).unwrap();

    let qt_pop = pair.b.io.pop(&mut pair.b.qd).unwrap();
    let received = pair.wait_b(qt_pop).pop_op();
    assert_eq!(received.length(), 1);
    assert_eq!(received.read(0), 42);
    pair.b.io.free(&mut pair.b.qd, received);

    let returned = pair.wait_a(qt_push).push_op();
    assert_eq!(returned.to_vec(), submitted);
    pair.a.io.free(&mut pair.a.qd, returned);

    assert_eq!(total_buffers(engine(&pair.a)), 8);
    assert_eq!(total_buffers(engine(&pair.b)), 8);
}

// A pop surfaces a buffer whose logical length equals the transmitted byte
// count and whose bytes are exactly the transmitted ones.
#[test]
fn pop_reports_transmitted_length_and_bytes() {
    let mut pair = connect_pair(cfg(2, 8, 8), cfg(2, 8, 8));

    let mut memory = pair.a.io.malloc(&mut pair.a.qd).unwrap();
    memory.write(0, b'a');
    memory.write(1, b'b');
    memory.write(2, b'c');
    let qt_push = pair.a.io.push(&mut pair.a.qd, memory).unwrap();
    let qt_pop = pair.b.io.pop(&mut pair.b.qd).unwrap();

    let received = pair.wait_b(qt_pop).pop_op();
    assert_eq!(received.length(), 3);
    assert_eq!(received.capacity_bytes(), 8);
    assert_eq!(received.to_vec(), vec![b'a', b'b', b'c']);
    pair.b.io.free(&mut pair.b.qd, received);
    let returned = pair.wait_a(qt_push).push_op();
    pair.a.io.free(&mut pair.a.qd, returned);
}

// Ping-pong of 1024 single-byte messages: the client pushes i mod 256, the
// server pops each one and pushes it back, and the client verifies
// order-preserving equality.
#[test]
fn ping_pong_single_bytes() {
    let mut pair = connect_pair(cfg(4, 16, 1), cfg(4, 16, 1));
    for i in 0..1024u32 {
        let value = (i % 256) as u8;

        let mut memory = pair.a.io.malloc(&mut pair.a.qd).unwrap();
        memory.write(0, value);
        let qt_push = pair.a.io.push(&mut pair.a.qd, memory).unwrap();

        let qt_pop = pair.b.io.pop(&mut pair.b.qd).unwrap();
        let echo = pair.wait_b(qt_pop).pop_op();
        assert_eq!(echo.length(), 1);
        assert_eq!(echo.read(0), value);
        let qt_echo = pair.b.io.push(&mut pair.b.qd, echo).unwrap();

        let qt_back = pair.a.io.pop(&mut pair.a.qd).unwrap();
        let back = pair.wait_a(qt_back).pop_op();
        assert_eq!(back.length(), 1);
        assert_eq!(back.read(0), value);
        pair.a.io.free(&mut pair.a.qd, back);

        let sent = pair.wait_a(qt_push).push_op();
        pair.a.io.free(&mut pair.a.qd, sent);
        let echoed = pair.wait_b(qt_echo).push_op();
        pair.b.io.free(&mut pair.b.qd, echoed);

        // the receive window is replenished before it runs dry
        assert!(engine(&pair.a).incoming_pending.len() >= 1);
        assert!(engine(&pair.b).incoming_pending.len() >= 1);
        // buffers are conserved on both sides
        assert_eq!(total_buffers(engine(&pair.a)), 8);
        assert_eq!(total_buffers(engine(&pair.b)), 8);
    }
}

// A burst within the window is delivered in order.
#[test]
fn burst_is_order_preserving() {
    let mut pair = connect_pair(cfg(4, 16, 4), cfg(4, 16, 4));
    let mut push_tokens = Vec::new();
    for v in 0..3u8 {
        let mut memory = pair.a.io.malloc(&mut pair.a.qd).unwrap();
        memory.write(0, 10 + v);
        push_tokens.push(pair.a.io.push(&mut pair.a.qd, memory).unwrap());
    }
    for v in 0..3u8 {
        let qt_pop = pair.b.io.pop(&mut pair.b.qd).unwrap();
        let received = pair.wait_b(qt_pop).pop_op();
        assert_eq!(received.read(0), 10 + v);
        pair.b.io.free(&mut pair.b.qd, received);
    }
    for qt in push_tokens {
        let returned = pair.wait_a(qt).push_op();
        pair.a.io.free(&mut pair.a.qd, returned);
    }
}

// With a window of one the engine serializes: at most one outstanding send
// and at most one outstanding receive at any point.
#[test]
fn window_of_one_serializes() {
    let mut pair = connect_pair(cfg(1, 8, 1), cfg(1, 8, 1));
    for i in 0..32u32 {
        let value = (i % 256) as u8;
        let mut memory = pair.a.io.malloc(&mut pair.a.qd).unwrap();
        memory.write(0, value);
        let qt_push = pair.a.io.push(&mut pair.a.qd, memory).unwrap();
        let qt_pop = pair.b.io.pop(&mut pair.b.qd).unwrap();

        let mut received_opt = None;
        let mut returned_opt = None;
        for _ in 0..64 {
            assert!(engine(&pair.a).outgoing_pending.len() <= 1);
            assert!(engine(&pair.a).incoming_pending.len() <= 1);
            assert!(engine(&pair.b).outgoing_pending.len() <= 1);
            assert!(engine(&pair.b).incoming_pending.len() <= 1);
            if received_opt.is_none() {
                received_opt = pair.b.io.wait(qt_pop);
            }
            if returned_opt.is_none() {
                returned_opt = pair.a.io.wait(qt_push);
            }
            if received_opt.is_some() && returned_opt.is_some() {
                break;
            }
            pair.pump();
        }
        let received = received_opt.expect("the pop completes").pop_op();
        assert_eq!(received.read(0), value);
        pair.b.io.free(&mut pair.b.qd, received);
        let returned = returned_opt.expect("the push completes").push_op();
        pair.a.io.free(&mut pair.a.qd, returned);
    }
}

// wait_any across mixed tokens: the peer's message arrives before the
// local push completes, so wait_any surfaces the pop's index first.
#[test]
fn wait_any_prefers_the_satisfied_pop() {
    let mut pair = connect_pair(cfg(4, 16, 2), cfg(4, 16, 2));

    // a push whose completion is withheld: its posting is never relayed
    let mut memory = pair.a.io.malloc(&mut pair.a.qd).unwrap();
    memory.write(0, 5);
    let qt_push = pair.a.io.push(&mut pair.a.qd, memory).unwrap();
    let qt_pop = pair.a.io.pop(&mut pair.a.qd).unwrap();

    // the peer sends one message; only its traffic is relayed
    let mut reply = pair.b.io.malloc(&mut pair.b.qd).unwrap();
    reply.write(0, 77);
    let qt_reply = pair.b.io.push(&mut pair.b.qd, reply).unwrap();
    relay(&mut pair.b, &mut pair.a, &mut pair.b_slots, &mut pair.a_slots);

    let tokens = vec![qt_push, qt_pop];
    let mut outcome = None;
    for _ in 0..8 {
        if let Some(found) = pair.a.io.wait_any(&tokens) {
            outcome = Some(found);
            break;
        }
        relay(&mut pair.b, &mut pair.a, &mut pair.b_slots, &mut pair.a_slots);
    }
    let (index, completed) = outcome.expect("the pop token must be satisfiable");
    assert_eq!(index, 1);
    let received = completed.pop_op();
    assert_eq!(received.read(0), 77);
    pair.a.io.free(&mut pair.a.qd, received);

    // the withheld push then completes once its traffic flows
    let returned = pair.wait_a(qt_push).push_op();
    assert_eq!(returned.read(0), 5);
    pair.a.io.free(&mut pair.a.qd, returned);
    let reply_back = pair.wait_b(qt_reply).push_op();
    pair.b.io.free(&mut pair.b.qd, reply_back);
}
