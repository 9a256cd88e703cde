//! The whole client: the coordinator that collects events, and its pool of
//! senders.
//!
//! [`crate::batch`] describes collecting on its own, and [`crate::pool`] the pool
//! with batches that come from anywhere. Here the batches are those that the
//! coordinator makes of the events it receives, which carries what holds of
//! batches over to events.

use vstd::prelude::*;

#[allow(unused_imports)]
use crate::batch::{
    all_carried, lines, plain, possible, read_back, received, run, sent, BatchBlob, CollectEvent,
    CollectorView, Decision, Run,
};
#[allow(unused_imports)]
use crate::outside::{bytes_content, zstd_text};
#[allow(unused_imports)]
use crate::pool::{idle_reports, pool_after, schedule, Pool, Step};
#[allow(unused_imports)]
use crate::slot::SlotModel;
#[allow(unused_imports)]
use crate::tasks::{CoordPhase, Coordinator, SenderPhase, SenderTask};

verus! {

/// The pool, and the history of the coordinator's collecting.
pub struct System {
    pub pool: Pool<BatchBlob>,
    pub run: Run,
}

/// One thing that happens.
pub enum Move {
    /// The coordinator, collecting, hears from the event queue or from the
    /// collect timeout, and makes a batch if that completes one.
    Collect { event: CollectEvent, made: Option<BatchBlob> },
    /// The coordinator or a sender takes any other step.
    Take { step: Step<BatchBlob> },
}

impl System {
    /// A client with `size` senders that collects up to `target` events for a
    /// batch, at its start.
    pub open spec fn start(size: nat, target: nat) -> System {
        System { pool: Pool::start(size), run: Run::start(target) }
    }

    /// The move can be made.
    pub open spec fn can(self, m: Move) -> bool {
        match m {
            Move::Collect { event, made } => {
                &&& self.pool.coord is Collecting
                &&& event matches CollectEvent::Read { records } ==> records.len()
                    <= self.run.now.room()
                &&& match self.run.respond(event).1 {
                    Decision::Flush { records } => made matches Some(blob) && blob.carries(records),
                    _ => made is None,
                }
            },
            Move::Take { step } => !(step is Produce) && !(step is Finish) && self.pool.enabled(
                step,
            ),
        }
    }

    /// The step that a move is to the pool, if it is one.
    pub open spec fn step_of(self, m: Move) -> Option<Step<BatchBlob>> {
        match m {
            Move::Collect { event, made } => match self.run.respond(event).1 {
                Decision::Receive { .. } => None,
                Decision::Flush { .. } => Some(Step::Produce { blob: made->0 }),
                Decision::Close => Some(Step::Finish),
            },
            Move::Take { step } => Some(step),
        }
    }

    /// The client after a move that can be made.
    pub open spec fn next(self, m: Move) -> System {
        System {
            pool: match self.step_of(m) {
                Some(step) => self.pool.next(step),
                None => self.pool,
            },
            run: match m {
                Move::Collect { event, .. } => self.run.step(event),
                Move::Take { .. } => self.run,
            },
        }
    }

    /// This is where the coordinator stands, and what it holds.
    pub open spec fn shows(self, coordinator: Coordinator) -> bool {
        &&& self.pool.coord == coordinator.phase()
        &&& self.run.now == coordinator.held()
        &&& self.pool.senders.len() == coordinator.size()
    }

    /// The coordinator and all senders have stopped.
    pub open spec fn stopped(self) -> bool {
        &&& self.pool.coord is Stopped
        &&& forall|i: int|
            0 <= i < self.pool.senders.len() ==> #[trigger] self.pool.senders[i] is Stopped
    }
}

/// The client that these moves lead to.
pub open spec fn system_after(size: nat, target: nat, moves: Seq<Move>) -> System
    decreases moves.len(),
{
    if moves.len() == 0 {
        System::start(size, target)
    } else {
        system_after(size, target, moves.drop_last()).next(moves.last())
    }
}

/// The moves can be made in this order.
pub open spec fn history(size: nat, target: nat, moves: Seq<Move>) -> bool
    decreases moves.len(),
{
    moves.len() > 0 ==> history(size, target, moves.drop_last()) && system_after(
        size,
        target,
        moves.drop_last(),
    ).can(moves.last())
}

/// What the coordinator heard from the event queue and the collect timeout.
pub open spec fn events_of(moves: Seq<Move>) -> Seq<CollectEvent>
    decreases moves.len(),
{
    if moves.len() == 0 {
        Seq::empty()
    } else {
        match moves.last() {
            Move::Collect { event, .. } => events_of(moves.drop_last()).push(event),
            Move::Take { .. } => events_of(moves.drop_last()),
        }
    }
}

/// The steps that the pool took.
pub open spec fn steps_of(size: nat, target: nat, moves: Seq<Move>) -> Seq<Step<BatchBlob>>
    decreases moves.len(),
{
    if moves.len() == 0 {
        Seq::empty()
    } else {
        let before = moves.drop_last();
        match system_after(size, target, before).step_of(moves.last()) {
            Some(step) => steps_of(size, target, before).push(step),
            None => steps_of(size, target, before),
        }
    }
}

/// The pool is fed by the collector: what happens to the client is a history of
/// the collector and a schedule of the pool, the batches of the pool carry the
/// batches of the collector, in order, and the pool shuts down once the
/// collector stops. Nothing is held while the coordinator is not collecting.
pub proof fn law_pool_is_fed_by_collector(size: nat, target: nat, moves: Seq<Move>)
    requires
        size > 0,
        target > 0,
        history(size, target, moves),
    ensures
        possible(target, events_of(moves)),
        system_after(size, target, moves).run == run(target, events_of(moves)),
        schedule(size, steps_of(size, target, moves)),
        system_after(size, target, moves).pool == pool_after(size, steps_of(size, target, moves)),
        all_carried(
            system_after(size, target, moves).pool.produced,
            system_after(size, target, moves).run.batches,
        ),
        system_after(size, target, moves).run.closed <==> system_after(
            size,
            target,
            moves,
        ).pool.shutting_down(),
        !(system_after(size, target, moves).pool.coord is Collecting) ==> system_after(
            size,
            target,
            moves,
        ).run.now.pending.len() == 0,
    decreases moves.len(),
{
    if moves.len() > 0 {
        let init = moves.drop_last();
        let before = system_after(size, target, init);
        let after = system_after(size, target, moves);
        law_pool_is_fed_by_collector(size, target, init);
        let steps = steps_of(size, target, init);
        let events = events_of(init);
        if let Some(step) = before.step_of(moves.last()) {
            assert(steps.push(step).drop_last() =~= steps);
            assert(before.pool.enabled(step));
        }
        if let Move::Collect { event, made } = moves.last() {
            assert(events.push(event).drop_last() =~= events);
            if let Decision::Flush { records } = before.run.respond(event).1 {
                let blob = made->0;
                assert forall|k: int| 0 <= k < after.pool.produced.len() implies (
                #[trigger] after.pool.produced[k]).carries(after.run.batches[k]) by {
                    if k < before.pool.produced.len() {
                        assert(before.pool.produced[k].carries(before.run.batches[k]));
                    }
                }
            }
        }
    }
}

/// A coordinator begins where the client does.
pub proof fn law_coordinator_begins(size: nat, target: nat, coordinator: Coordinator)
    requires
        coordinator.phase() is Collecting,
        coordinator.held() == CollectorView::empty(target),
        coordinator.size() == size,
    ensures
        system_after(size, target, Seq::empty()).shows(coordinator),
{
}

/// What a coordinator does about events or a timeout is a move of the client:
/// one that was `before` in a client and is `after` what its contract calls for,
/// when the queue hands out no more than it has room for.
pub proof fn law_coordinator_collects(
    size: nat,
    target: nat,
    moves: Seq<Move>,
    before: Coordinator,
    after: Coordinator,
    event: CollectEvent,
)
    requires
        history(size, target, moves),
        system_after(size, target, moves).shows(before),
        before.phase() is Collecting,
        event matches CollectEvent::Read { records } ==> records.len() <= before.held().room(),
        after.enacts(
            before,
            match event {
                CollectEvent::Read { records } => before.held().read(records),
                CollectEvent::Elapsed => before.held().elapsed(),
            },
        ),
    ensures
        exists|made: Option<BatchBlob>|
            #![trigger moves.push(Move::Collect { event, made })]
            history(size, target, moves.push(Move::Collect { event, made })) && system_after(
                size,
                target,
                moves.push(Move::Collect { event, made }),
            ).shows(after),
{
    let system = system_after(size, target, moves);
    let made = match system.run.respond(event).1 {
        Decision::Flush { .. } => Some(after.phase()->Holding_blob),
        _ => None,
    };
    let m = Move::Collect { event, made };
    assert(moves.push(m).drop_last() =~= moves);
    assert(system.can(m));
    assert(system.next(m).shows(after));
    assert(history(size, target, moves.push(Move::Collect { event, made })));
}

/// Everything else that a coordinator does is a move of the client too: taking
/// the first idle sender, filling its slot, waking it, closing a slot, and
/// waking its sender. Each changes the slot and the permit that it is about, and
/// no other.
pub proof fn law_coordinator_moves(
    size: nat,
    target: nat,
    moves: Seq<Move>,
    before: Coordinator,
    after: Coordinator,
    step: Step<BatchBlob>,
)
    requires
        size > 0,
        target > 0,
        history(size, target, moves),
        system_after(size, target, moves).shows(before),
        system_after(size, target, moves).pool.enabled(step),
        after.keeps(before),
        match step {
            Step::Claim => after.phase() == before.phase().claimed(
                system_after(size, target, moves).pool.idle[0],
            ),
            Step::Publish => after.phase() == before.phase().published(),
            Step::Notify => after.phase() == before.phase().notified(before.size()),
            Step::CloseSlot => after.phase() == before.phase().shut(),
            Step::NotifyClosed => after.phase() == before.phase().notified(before.size()),
            _ => false,
        },
    ensures
        history(size, target, moves.push(Move::Take { step })),
        system_after(size, target, moves.push(Move::Take { step })).shows(after),
        ({
            let pool = system_after(size, target, moves).pool;
            let next = system_after(size, target, moves.push(Move::Take { step })).pool;
            match step {
                Step::Publish => {
                    let id = before.phase()->Claimed_id;
                    &&& 0 <= id < size
                    &&& pool.slots[id].vacant()
                    &&& next.slots[id] == pool.slots[id].publish(before.phase()->Claimed_blob)
                    &&& next.slots == pool.slots.update(id, next.slots[id])
                    &&& next.permits == pool.permits
                },
                Step::CloseSlot => {
                    let id = before.phase()->Closing_next;
                    &&& 0 <= id < size
                    &&& next.slots[id] == pool.slots[id].close()
                    &&& next.slots == pool.slots.update(id, next.slots[id])
                    &&& next.permits == pool.permits
                },
                Step::Notify => {
                    let id = before.phase()->Notifying_id;
                    &&& 0 <= id < size
                    &&& next.slots == pool.slots
                    &&& next.permits == pool.permits.update(id, true)
                },
                Step::NotifyClosed => {
                    let id = before.phase()->NotifyingClosed_next;
                    &&& 0 <= id < size
                    &&& next.slots == pool.slots
                    &&& next.permits == pool.permits.update(id, true)
                },
                _ => next.slots == pool.slots && next.permits == pool.permits,
            }
        }),
{
    assert(moves.push(Move::Take { step }).drop_last() =~= moves);
    law_pool_is_fed_by_collector(size, target, moves);
    crate::pool::law_invariant(size, steps_of(size, target, moves));
    crate::pool::law_publish_finds_vacant_slot(size, steps_of(size, target, moves));
}

/// What a sender does is a move of the client, and changes its slot as the move
/// says.
pub proof fn law_sender_moves(
    size: nat,
    target: nat,
    moves: Seq<Move>,
    i: int,
    before: SenderTask,
    after: SenderTask,
    slot: SlotModel<BatchBlob>,
    step: Step<BatchBlob>,
)
    requires
        size > 0,
        target > 0,
        history(size, target, moves),
        0 <= i < size,
        system_after(size, target, moves).pool.senders[i] == before.phase,
        system_after(size, target, moves).pool.slots[i] == slot,
        system_after(size, target, moves).pool.enabled(step),
        match step {
            Step::Announce { i: id } => id == i && after.phase is Waiting,
            Step::Wake { i: id } => id == i && after.phase is Woken,
            Step::Take { i: id } => id == i && after.phase == SenderPhase::looked(slot),
            Step::Send { i: id } => id == i && after.phase is Sent,
            Step::Check { i: id } => id == i && after.phase == SenderPhase::checked(slot),
            _ => false,
        },
    ensures
        history(size, target, moves.push(Move::Take { step })),
        system_after(size, target, moves.push(Move::Take { step })).pool.senders[i] == after.phase,
        system_after(size, target, moves.push(Move::Take { step })).pool.slots[i] == (
        if step is Take {
            slot.take()
        } else {
            slot
        }),
{
    assert(moves.push(Move::Take { step }).drop_last() =~= moves);
    law_pool_is_fed_by_collector(size, target, moves);
    crate::pool::law_invariant(size, steps_of(size, target, moves));
}

/// What a server reads that is posted this blob.
spec fn posted_lines(blob: BatchBlob) -> Seq<Seq<u8>> {
    lines(zstd_text(bytes_content(blob.body)).unwrap())
}

proof fn lemma_read_back_remove(blobs: Seq<BatchBlob>, k: int)
    requires
        0 <= k < blobs.len(),
    ensures
        read_back(blobs).to_multiset() == read_back(blobs.remove(k)).to_multiset().add(
            posted_lines(blobs[k]).to_multiset(),
        ),
    decreases blobs.len(),
{
    let init = blobs.drop_last();
    let rest = blobs.remove(k);
    vstd::seq_lib::lemma_multiset_commutative(read_back(init), posted_lines(blobs.last()));
    if k == blobs.len() - 1 {
        assert(rest =~= init);
    } else {
        lemma_read_back_remove(init, k);
        assert(rest.drop_last() =~= init.remove(k));
        assert(rest.last() == blobs.last());
        vstd::seq_lib::lemma_multiset_commutative(
            read_back(init.remove(k)),
            posted_lines(blobs.last()),
        );
        assert(read_back(blobs).to_multiset() =~= read_back(rest).to_multiset().add(
            posted_lines(blobs[k]).to_multiset(),
        ));
    }
}

/// What is read back does not depend on the order of the blobs, but for its own
/// order.
proof fn lemma_read_back_permuted(a: Seq<BatchBlob>, b: Seq<BatchBlob>)
    requires
        a.to_multiset() == b.to_multiset(),
    ensures
        read_back(a).to_multiset() == read_back(b).to_multiset(),
    decreases a.len(),
{
    broadcast use vstd::seq_lib::group_to_multiset_ensures;

    assert(a.to_multiset().len() == a.len() && b.to_multiset().len() == b.len());
    if a.len() > 0 {
        let x = a.last();
        let init = a.drop_last();
        assert(a.contains(x)) by {
            assert(a[a.len() - 1] == x);
        }
        assert(b.to_multiset().count(x) > 0);
        assert(b.contains(x));
        let k = choose|k: int| 0 <= k < b.len() && b[k] == x;
        assert(a.remove(a.len() - 1) =~= init);
        assert(init.to_multiset() =~= b.remove(k).to_multiset());
        lemma_read_back_permuted(init, b.remove(k));
        lemma_read_back_remove(a, a.len() - 1);
        lemma_read_back_remove(b, k);
    } else {
        assert(a =~= b);
    }
}

/// From the event queue to the posts, whatever the size of the pool: once
/// everything has stopped, the batches that were settled are those that were
/// made, each once, and these carry exactly the records of the events that the
/// queue handed out, in order. So each event is in exactly one settled batch. Read
/// back, the settled batches are the records, each as often as it was received,
/// provided that none contains a newline.
pub proof fn law_every_event_is_posted_once(size: nat, target: nat, moves: Seq<Move>)
    requires
        size > 0,
        target > 0,
        history(size, target, moves),
        system_after(size, target, moves).stopped(),
    ensures
        system_after(size, target, moves).pool.settled.to_multiset() == system_after(
            size,
            target,
            moves,
        ).pool.produced.to_multiset(),
        all_carried(
            system_after(size, target, moves).pool.produced,
            system_after(size, target, moves).run.batches,
        ),
        sent(system_after(size, target, moves).run.batches) == received(events_of(moves)),
        plain(received(events_of(moves))) ==> read_back(
            system_after(size, target, moves).pool.settled,
        ).to_multiset() == received(events_of(moves)).to_multiset(),
{
    let system = system_after(size, target, moves);
    let steps = steps_of(size, target, moves);
    law_pool_is_fed_by_collector(size, target, moves);
    crate::pool::law_invariant(size, steps);
    assert forall|i: int| 0 <= i < size implies #[trigger] pool_after(
        size,
        steps,
    ).senders[i] is Stopped by {
        assert(system.pool.senders[i] is Stopped);
    }
    crate::pool::law_shutdown_settles_everything(size, steps);
    crate::batch::law_stopped_means_drained(target, events_of(moves));
    lemma_read_back_permuted(system.pool.settled, system.pool.produced);
    if plain(received(events_of(moves))) {
        crate::batch::law_batches_read_back(system.pool.produced, system.run.batches);
    }
}

/// With a single sender, the posts keep the order of the events: once everything
/// has stopped, the settled batches read back as exactly the records that the
/// queue handed out, in order, provided that no record contains a newline.
pub proof fn law_events_are_posted_in_order(target: nat, moves: Seq<Move>)
    requires
        target > 0,
        history(1, target, moves),
        system_after(1, target, moves).stopped(),
    ensures
        system_after(1, target, moves).pool.settled == system_after(1, target, moves).pool.produced,
        plain(received(events_of(moves))) ==> read_back(
            system_after(1, target, moves).pool.settled,
        ) == received(events_of(moves)),
{
    let system = system_after(1, target, moves);
    let steps = steps_of(1, target, moves);
    law_every_event_is_posted_once(1, target, moves);
    law_pool_is_fed_by_collector(1, target, moves);
    crate::pool::law_invariant(1, steps);
    crate::pool::law_single_sender_keeps_order(steps);
    assert(system.pool.senders[0] is Stopped);
    assert(system.pool.slots[0].blob is None);
    assert(system.pool.settled =~= system.pool.produced);
    if plain(received(events_of(moves))) {
        crate::batch::law_batches_read_back(system.pool.produced, system.run.batches);
    }
}

proof fn lemma_sent_len(batches: Seq<Seq<Seq<u8>>>, target: nat)
    requires
        forall|k: int| 0 <= k < batches.len() ==> (#[trigger] batches[k]).len() <= target,
    ensures
        sent(batches).len() <= target * batches.len(),
    decreases batches.len(),
{
    if batches.len() > 0 {
        let init = batches.drop_last();
        assert forall|k: int| 0 <= k < init.len() implies (#[trigger] init[k]).len() <= target by {
            assert(init[k] == batches[k]);
        }
        lemma_sent_len(init, target);
        assert(batches[batches.len() - 1].len() <= target);
        assert(target * init.len() + target == target * batches.len()) by (nonlinear_arith)
            requires
                init.len() + 1 == batches.len(),
        ;
    } else {
        assert(target * batches.len() == 0) by (nonlinear_arith)
            requires
                batches.len() == 0,
        ;
    }
}

/// A full pool pushes back on the event queue: the coordinator receives no more
/// than one batch's worth of events beyond one for each idle report that it has
/// used up, and no more than that beyond one for each sender and each batch that
/// is settled.
pub proof fn law_backpressure_on_events(size: nat, target: nat, moves: Seq<Move>)
    requires
        size > 0,
        target > 0,
        history(size, target, moves),
    ensures
        received(events_of(moves)).len() <= target * (idle_reports(steps_of(size, target, moves))
            - system_after(size, target, moves).pool.idle.len() + 1),
        received(events_of(moves)).len() <= target * (system_after(
            size,
            target,
            moves,
        ).pool.settled.len() + size + 1),
{
    let system = system_after(size, target, moves);
    let steps = steps_of(size, target, moves);
    let events = events_of(moves);
    let made = system.run.batches.len() as int;
    law_pool_is_fed_by_collector(size, target, moves);
    crate::pool::law_invariant(size, steps);
    crate::pool::law_one_batch_per_idle_report(size, steps);
    crate::pool::law_backpressure(size, steps);
    crate::batch::law_nothing_lost(target, events);
    crate::batch::law_room_for_more(target, events);
    crate::batch::law_batch_sizes(target, events);
    lemma_sent_len(system.run.batches, target);
    let used = idle_reports(steps) - system.pool.idle.len();
    let places = system.pool.settled.len() + size;
    let held = system.run.now.pending.len() as int;
    assert(received(events).len() <= target * made + held);
    if system.pool.coord is Collecting {
        assert(made == used && made <= places && held <= target);
    } else {
        assert(made <= used + 1 && made <= places + 1 && held == 0);
    }
    assert(target * made + held <= target * (used + 1) && target * made + held <= target * (places
        + 1)) by (nonlinear_arith)
        requires
            target > 0,
            (made <= used && made <= places && held <= target) || (made <= used + 1 && made
                <= places + 1 && held == 0),
    ;
}

} // verus!
