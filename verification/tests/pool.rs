//! A pool driven step by step against a stub server.

use std::collections::{HashMap, VecDeque};

use tracing_axiom::batch::{BatchBlob, CollectAction, Collector};
use tracing_axiom::delivery::{AfterReply, AfterWait, Delivery, IngestStatus, Reply};
use tracing_axiom::slot::{new_slots, AfterSend, SenderSet, SenderSlotState, SenderStep};
use tracing_axiom::tasks::{CoordAction, Coordinator, SenderAction, SenderTask};

#[derive(Clone, Debug, PartialEq)]
struct ReqObs {
    start_seq: u64,
    evts: usize,
}

#[derive(Default)]
struct Server {
    fail_first_batch_once: bool,
    attempts: HashMap<u64, usize>,
    reqs: Vec<ReqObs>,
    seqs: Vec<u64>,
    in_flight: usize,
    max_in_flight: usize,
}

impl Server {
    fn decode(&mut self, body: &[u8]) -> ReqObs {
        let text = zstd::stream::decode_all(body).unwrap();
        let mut start_seq: Option<u64> = None;
        let mut evts = 0usize;
        for line in text.split(|b| *b == b'\n') {
            if line.is_empty() {
                continue;
            }
            let evt: serde_json::Value = serde_json::from_slice(line).unwrap();
            let seq = evt["seq"].as_u64().unwrap();
            assert_eq!(evt["service"]["name"], "test-service");
            start_seq.get_or_insert(seq);
            self.seqs.push(seq);
            evts += 1;
        }
        ReqObs { start_seq: start_seq.unwrap(), evts }
    }

    /// Whether the request is going to fail.
    fn receive(&mut self, body: &[u8]) -> bool {
        let req = self.decode(body);
        self.in_flight += 1;
        self.max_in_flight = self.max_in_flight.max(self.in_flight);
        self.reqs.push(req.clone());
        let attempt = self.attempts.entry(req.start_seq).or_insert(0);
        let fails = self.fail_first_batch_once && req.start_seq == 0 && *attempt == 0;
        *attempt += 1;
        fails
    }
}

/// A request on its way.
struct Post {
    delivery: Delivery,
    fails: bool,
    ticks: usize,
}

struct Sim {
    coordinator: Coordinator,
    slots: Vec<SenderSlotState>,
    permits: Vec<bool>,
    senders: Vec<SenderTask>,
    posts: Vec<Option<Post>>,
    idle: VecDeque<usize>,
    queue: VecDeque<u64>,
    queue_len: usize,
    queue_closed: bool,
    send_ticks: usize,
    server: Server,
}

fn clean() -> IngestStatus {
    IngestStatus {
        failed: 0,
        ingested: 1,
        processed_bytes: 0,
        blocks_created: None,
        failures: Vec::new(),
        wal_length: None,
    }
}

impl Sim {
    fn new(queue_len: usize, collect_target: usize, pool_size: usize, send_ticks: usize) -> Sim {
        Sim {
            coordinator: Coordinator::new(collect_target, pool_size),
            slots: new_slots(pool_size),
            permits: vec![false; pool_size],
            senders: (0..pool_size).map(|_| SenderTask::new()).collect(),
            posts: (0..pool_size).map(|_| None).collect(),
            idle: VecDeque::new(),
            queue: VecDeque::new(),
            queue_len,
            queue_closed: false,
            send_ticks,
            server: Server::default(),
        }
    }

    /// Whether there was room in the event queue.
    fn try_send(&mut self, seq: u64) -> bool {
        if self.queue.len() == self.queue_len {
            return false;
        }
        self.queue.push_back(seq);
        true
    }

    fn send_all(&mut self, count: u64) {
        for seq in 0..count {
            while !self.try_send(seq) {
                self.tick();
            }
        }
    }

    fn stopped(&self) -> bool {
        self.coordinator.action() == CoordAction::Stop
            && self.senders.iter().all(|s| s.action() == SenderAction::Stop)
    }

    fn finish(&mut self) {
        self.queue_closed = true;
        for _ in 0..10_000 {
            if self.stopped() {
                return;
            }
            self.tick();
        }
        panic!("the pool does not stop");
    }

    fn coordinate(&mut self) {
        match self.coordinator.action() {
            CoordAction::Receive { limit, .. } => {
                if self.queue.is_empty() && !self.queue_closed {
                    return;
                }
                let mut records: Vec<Vec<u8>> = Vec::new();
                while records.len() < limit {
                    match self.queue.pop_front() {
                        Some(seq) => records.push(
                            format!(
                                "{{\"service\":{{\"name\":\"test-service\"}},\"seq\":{}}}",
                                seq
                            )
                            .into_bytes(),
                        ),
                        None => break,
                    }
                }
                self.coordinator.on_read(&records);
            }
            CoordAction::AwaitIdle => {
                if let Some(id) = self.idle.pop_front() {
                    self.coordinator.claimed(id);
                }
            }
            CoordAction::Fill { id } => {
                assert!(self.slots[id].blob.is_none());
                assert!(!self.slots[id].closed);
                self.coordinator.publish(&mut self.slots[id]);
            }
            CoordAction::Wake { id } => {
                self.permits[id] = true;
                self.coordinator.notified();
            }
            CoordAction::Close { id } => self.coordinator.close(&mut self.slots[id]),
            CoordAction::Stop => {}
        }
    }

    fn post(&mut self, i: usize) {
        let body = &self.senders[i].batch().unwrap().body;
        let Some(mut post) = self.posts[i].take() else {
            let fails = self.server.receive(body);
            let ticks = self.send_ticks;
            self.posts[i] = Some(Post { delivery: Delivery::new(), fails, ticks });
            return;
        };
        if post.ticks > 0 {
            post.ticks -= 1;
            self.posts[i] = Some(post);
            return;
        }
        self.server.in_flight -= 1;
        let reply = if post.fails { Reply::Failed } else { Reply::Status(clean()) };
        match post.delivery.on_reply(&reply) {
            AfterReply::Delivered => self.senders[i].posted(),
            AfterReply::Rejected { wait, .. } | AfterReply::RequestFailed { wait, .. } => {
                match post.delivery.on_waited(wait) {
                    AfterWait::Post => {
                        post.fails = self.server.receive(body);
                        post.ticks = self.send_ticks;
                        self.posts[i] = Some(post);
                    }
                    AfterWait::GiveUp => self.senders[i].posted(),
                }
            }
        }
    }

    fn send(&mut self, i: usize) {
        match self.senders[i].action() {
            SenderAction::Announce => {
                assert!(self.idle.len() < self.slots.len());
                self.idle.push_back(i);
                self.senders[i].announced();
            }
            SenderAction::AwaitWake => {
                if self.permits[i] {
                    self.permits[i] = false;
                    self.senders[i].woken();
                }
            }
            SenderAction::Look => {
                assert!(self.slots[i].blob.is_some() || self.slots[i].closed);
                self.senders[i].look(&mut self.slots[i]);
            }
            SenderAction::Post => self.post(i),
            SenderAction::Check => self.senders[i].check(&self.slots[i]),
            SenderAction::Stop => {}
        }
    }

    fn tick(&mut self) {
        self.coordinate();
        for i in 0..self.senders.len() {
            self.send(i);
        }
    }
}

#[test]
fn ingest_sender_pool_1_preserves_request_order() {
    let mut sim = Sim::new(8, 2, 1, 3);
    sim.send_all(4);
    sim.finish();
    assert_eq!(sim.server.reqs.len(), 2);
    assert_eq!(sim.server.reqs[0].start_seq, 0);
    assert_eq!(sim.server.reqs[1].start_seq, 2);
}

#[test]
fn ingest_sender_pool_gt_1_allows_concurrent_sends() {
    let mut sim = Sim::new(8, 1, 2, 10);
    sim.send_all(4);
    sim.finish();
    assert!(sim.server.max_in_flight >= 2);
    assert_eq!(sim.server.max_in_flight, 2);
}

#[test]
fn ingest_full_sender_pool_pushes_backpressure_upstream() {
    let mut sim = Sim::new(1, 1, 1, 1_000);
    sim.send_all(3);
    for _ in 0..50 {
        sim.tick();
        assert!(!sim.try_send(3));
    }
    sim.finish();
    assert_eq!(sim.server.reqs.len(), 3);
}

#[test]
fn ingest_retry_holds_sender_slot() {
    let mut sim = Sim::new(8, 1, 1, 0);
    sim.server.fail_first_batch_once = true;
    sim.send_all(2);
    sim.finish();
    assert_eq!(
        sim.server.reqs.iter().map(|req| req.start_seq).collect::<Vec<_>>(),
        vec![0, 0, 1]
    );
}

#[test]
fn ingest_shutdown_flushes_partial_batch() {
    let mut sim = Sim::new(8, 4, 1, 0);
    sim.send_all(3);
    sim.finish();
    assert_eq!(sim.server.reqs.len(), 1);
    assert_eq!(sim.server.reqs[0].start_seq, 0);
    assert_eq!(sim.server.reqs[0].evts, 3);
}

#[test]
fn every_event_arrives_once_with_many_senders() {
    let mut sim = Sim::new(4, 3, 3, 5);
    sim.send_all(20);
    sim.finish();
    let mut starts: Vec<u64> = sim.server.reqs.iter().map(|r| r.start_seq).collect();
    starts.sort_unstable();
    starts.dedup();
    assert_eq!(starts.len(), sim.server.reqs.len());
    assert_eq!(sim.server.reqs.iter().map(|r| r.evts).sum::<usize>(), 20);
    let mut seqs = sim.server.seqs.clone();
    seqs.sort_unstable();
    assert_eq!(seqs, (0..20).collect::<Vec<u64>>());
    assert!(sim.server.max_in_flight <= 3);
}

#[test]
fn events_wait_in_the_queue_while_no_sender_is_idle() {
    let mut coordinator = Coordinator::new(3, 2);
    let mut slots = new_slots(2);
    let mut received = 0;
    for idle in 0..3 {
        while let CoordAction::Receive { .. } = coordinator.action() {
            coordinator.on_read(&vec![b"{}".to_vec()]);
            received += 1;
        }
        assert_eq!(coordinator.action(), CoordAction::AwaitIdle);
        assert_eq!(received, 3 * (idle + 1));
        coordinator.claimed(idle % 2);
        slots[idle % 2] = SenderSlotState::default();
        coordinator.publish(&mut slots[idle % 2]);
        coordinator.notified();
    }
}

#[test]
fn events_arrive_in_order_with_one_sender() {
    for (queue_len, collect_target, ticks) in [(1, 1, 0), (3, 2, 4), (50, 7, 1), (2, 100, 9)] {
        let mut sim = Sim::new(queue_len, collect_target, 1, ticks);
        sim.send_all(30);
        sim.finish();
        assert_eq!(sim.server.seqs, (0..30).collect::<Vec<u64>>());
        assert!(sim.server.reqs.iter().all(|r| 1 <= r.evts && r.evts <= collect_target));
    }
}

#[test]
fn shutdown_without_events_sends_nothing() {
    let mut sim = Sim::new(4, 3, 2, 5);
    sim.finish();
    assert!(sim.server.reqs.is_empty());
}

fn one_batch() -> BatchBlob {
    let mut collector = Collector::new(1);
    match collector.on_read(&vec![b"{}".to_vec()]) {
        CollectAction::Flush(blob) => blob,
        _ => panic!("a full batch is flushed"),
    }
}

#[test]
fn new_slots_are_open_and_empty() {
    let slots = new_slots(3);
    assert_eq!(slots.len(), 3);
    assert!(slots.iter().all(|s| s.blob.is_none() && !s.closed));
    assert!(new_slots(0).is_empty());
}

#[test]
fn closed_slot_still_gives_out_its_batch() {
    let mut slot = SenderSlotState::default();
    slot.publish(one_batch());
    slot.close();
    assert!(matches!(slot.wake(), SenderStep::Send(blob) if blob.evts_count == 1));
    assert_eq!(slot.after_send(), AfterSend::Stop);
    assert!(matches!(slot.wake(), SenderStep::Stop));
}

#[test]
fn open_slot_is_announced_again_after_sending() {
    let mut slot = SenderSlotState::default();
    slot.publish(one_batch());
    assert!(matches!(slot.wake(), SenderStep::Send(_)));
    assert!(slot.blob.is_none());
    assert_eq!(slot.after_send(), AfterSend::Announce);
}

#[test]
fn sender_stops_at_once_if_nobody_takes_its_report() {
    let mut sender = SenderTask::new();
    assert_eq!(sender.action(), SenderAction::Announce);
    sender.forsaken();
    assert_eq!(sender.action(), SenderAction::Stop);
    assert!(sender.batch().is_none());
}

#[test]
fn shutdown_closes_every_slot_and_keeps_batches() {
    let mut coordinator = Coordinator::new(5, 2);
    let mut slots = new_slots(2);
    slots[1].publish(one_batch());
    coordinator.on_read(&Vec::new());
    assert_eq!(coordinator.action(), CoordAction::Close { id: 0 });
    coordinator.close(&mut slots[0]);
    assert_eq!(coordinator.action(), CoordAction::Wake { id: 0 });
    coordinator.notified();
    assert_eq!(coordinator.action(), CoordAction::Close { id: 1 });
    coordinator.close(&mut slots[1]);
    coordinator.notified();
    assert_eq!(coordinator.action(), CoordAction::Stop);
    assert!(slots[0].closed && slots[0].blob.is_none());
    assert!(slots[1].closed && slots[1].blob.is_some());
}

#[test]
fn coordinator_waits_for_an_idle_sender_with_a_full_batch() {
    let mut coordinator = Coordinator::new(2, 3);
    let mut slots = new_slots(3);
    assert_eq!(
        coordinator.action(),
        CoordAction::Receive { limit: 2, restart_timer: true }
    );
    coordinator.on_read(&vec![b"1".to_vec()]);
    assert_eq!(
        coordinator.action(),
        CoordAction::Receive { limit: 1, restart_timer: false }
    );
    coordinator.on_elapsed();
    assert_eq!(coordinator.action(), CoordAction::AwaitIdle);
    coordinator.claimed(2);
    assert_eq!(coordinator.action(), CoordAction::Fill { id: 2 });
    coordinator.publish(&mut slots[2]);
    assert_eq!(slots[2].blob.as_ref().map(|b| b.evts_count), Some(1));
    assert_eq!(coordinator.action(), CoordAction::Wake { id: 2 });
    coordinator.notified();
    assert_eq!(
        coordinator.action(),
        CoordAction::Receive { limit: 2, restart_timer: true }
    );
    coordinator.on_elapsed();
    assert_eq!(
        coordinator.action(),
        CoordAction::Receive { limit: 2, restart_timer: true }
    );
}

#[test]
fn sender_set_is_ready_once_all_are_done() {
    let mut set = SenderSet::new(3);
    set.begin();
    for (i, ready) in [true, false, true].into_iter().enumerate() {
        assert!(set.needs_poll(i));
        set.polled(i, ready);
    }
    assert!(!set.is_ready());
    set.begin();
    assert!(!set.needs_poll(0));
    assert!(set.needs_poll(1));
    assert!(!set.needs_poll(2));
    set.polled(1, true);
    assert!(set.is_ready());
}

#[test]
fn empty_sender_set_is_ready() {
    let mut set = SenderSet::new(0);
    set.begin();
    assert!(set.is_ready());
}
