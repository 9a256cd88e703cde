//! The protocol between the coordinator and its pool of senders.
//!
//! The coordinator and every sender run concurrently and meet in three places:
//! the slots, a wake-up permit per sender, and a queue in which senders report
//! themselves idle. This module describes each atomic step that one of them can
//! take, over the slot operations of [`crate::slot`] and the state machines of
//! [`crate::tasks`], and proves what holds however the steps interleave. The queue
//! of idle senders lasts as long as the tasks do, so that a report always finds a
//! taker.

use vstd::multiset::Multiset;
use vstd::prelude::*;

#[allow(unused_imports)]
use crate::slot::SlotModel;
#[allow(unused_imports)]
use crate::tasks::{CoordPhase, SenderPhase};

verus! {

/// The whole pool.
pub struct Pool<B> {
    pub slots: Seq<SlotModel<B>>,
    /// Wake-up permits, at most one for each sender.
    pub permits: Seq<bool>,
    pub senders: Seq<SenderPhase<B>>,
    /// Senders that reported themselves idle, in order.
    pub idle: Seq<int>,
    pub coord: CoordPhase<B>,
    /// Every batch that was collected, in order.
    pub produced: Seq<B>,
    /// Every batch that a sender is done with, in order: it has arrived, or was
    /// dropped after the last attempt.
    pub settled: Seq<B>,
}

/// One atomic step.
pub enum Step<B> {
    /// The coordinator has collected a batch.
    Produce { blob: B },
    /// The coordinator finds the event queue closed and drained.
    Finish,
    /// The coordinator takes the first idle sender.
    Claim,
    /// The coordinator puts its batch into the slot.
    Publish,
    /// The coordinator wakes the sender.
    Notify,
    /// The coordinator closes the next slot.
    CloseSlot,
    /// The coordinator wakes the sender of the slot it closed.
    NotifyClosed,
    /// Sender `i` reports itself idle.
    Announce { i: int },
    /// Sender `i` uses up its permit.
    Wake { i: int },
    /// Sender `i` looks into its slot.
    Take { i: int },
    /// Sender `i` is done with its batch.
    Send { i: int },
    /// Sender `i` sees whether its slot is closed.
    Check { i: int },
}

impl<B> Pool<B> {
    /// A pool of `size` senders at its start.
    pub open spec fn start(size: nat) -> Pool<B> {
        Pool {
            slots: Seq::new(size, |i: int| SlotModel::empty()),
            permits: Seq::new(size, |i: int| false),
            senders: Seq::new(size, |i: int| SenderPhase::Announcing),
            idle: Seq::empty(),
            coord: CoordPhase::Collecting,
            produced: Seq::empty(),
            settled: Seq::empty(),
        }
    }

    /// `i` is a sender of the pool.
    pub open spec fn has(self, i: int) -> bool {
        0 <= i < self.senders.len()
    }

    /// The task that takes the step has come to it.
    pub open spec fn enabled(self, step: Step<B>) -> bool {
        match step {
            Step::Produce { .. } => self.coord is Collecting,
            Step::Finish => self.coord is Collecting,
            Step::Claim => self.coord is Holding && self.idle.len() > 0,
            Step::Publish => self.coord is Claimed,
            Step::Notify => self.coord is Notifying,
            Step::CloseSlot => self.coord is Closing,
            Step::NotifyClosed => self.coord is NotifyingClosed,
            Step::Announce { i } => self.has(i) && self.senders[i] is Announcing,
            Step::Wake { i } => self.has(i) && self.senders[i] is Waiting && self.permits[i],
            Step::Take { i } => self.has(i) && self.senders[i] is Woken,
            Step::Send { i } => self.has(i) && self.senders[i] is Sending,
            Step::Check { i } => self.has(i) && self.senders[i] is Sent,
        }
    }

    /// The pool with sender `i` moved on.
    pub open spec fn at(self, i: int, phase: SenderPhase<B>) -> Pool<B> {
        Pool { senders: self.senders.update(i, phase), ..self }
    }

    /// The pool after a step that is enabled.
    pub open spec fn next(self, step: Step<B>) -> Pool<B> {
        match step {
            Step::Produce { blob } => Pool {
                coord: CoordPhase::Holding { blob },
                produced: self.produced.push(blob),
                ..self
            },
            Step::Finish => Pool { coord: CoordPhase::Closing { next: 0 }, ..self },
            Step::Claim => Pool {
                coord: self.coord.claimed(self.idle[0]),
                idle: self.idle.skip(1),
                ..self
            },
            Step::Publish => {
                let id = self.coord->Claimed_id;
                Pool {
                    slots: self.slots.update(
                        id,
                        self.slots[id].publish(self.coord->Claimed_blob),
                    ),
                    coord: self.coord.published(),
                    ..self
                }
            },
            Step::Notify => Pool {
                permits: self.permits.update(self.coord->Notifying_id, true),
                coord: self.coord.notified(self.senders.len() as int),
                ..self
            },
            Step::CloseSlot => {
                let next = self.coord->Closing_next;
                Pool {
                    slots: self.slots.update(next, self.slots[next].close()),
                    coord: self.coord.shut(),
                    ..self
                }
            },
            Step::NotifyClosed => {
                let next = self.coord->NotifyingClosed_next;
                Pool {
                    permits: self.permits.update(next, true),
                    coord: self.coord.notified(self.senders.len() as int),
                    ..self
                }
            },
            Step::Announce { i } => Pool {
                idle: self.idle.push(i),
                ..self.at(i, SenderPhase::Waiting)
            },
            Step::Wake { i } => Pool {
                permits: self.permits.update(i, false),
                ..self.at(i, SenderPhase::Woken)
            },
            Step::Take { i } => Pool {
                slots: self.slots.update(i, self.slots[i].take()),
                ..self.at(i, SenderPhase::looked(self.slots[i]))
            },
            Step::Send { i } => Pool {
                settled: self.settled.push(self.senders[i]->Sending_blob),
                ..self.at(i, SenderPhase::Sent)
            },
            Step::Check { i } => self.at(i, SenderPhase::checked(self.slots[i])),
        }
    }

    /// The coordinator has closed slot `i`.
    pub open spec fn shut(self, i: int) -> bool {
        match self.coord {
            CoordPhase::Closing { next } => i < next,
            CoordPhase::NotifyingClosed { next } => i <= next,
            CoordPhase::Stopped => true,
            _ => false,
        }
    }

    /// The coordinator is about to fill the slot of sender `i`, or to wake the
    /// sender after filling it.
    pub open spec fn serving(self, i: int) -> bool {
        match self.coord {
            CoordPhase::Claimed { id, .. } => id == i,
            CoordPhase::Notifying { id } => id == i,
            _ => false,
        }
    }

    /// What holds of sender `i` while its slot is open. An idle sender waits
    /// with an empty slot and no permit; a permit is there only beside a batch.
    pub open spec fn open_inv(self, i: int) -> bool {
        let slot = self.slots[i];
        let idle = self.idle.contains(i);
        match self.senders[i] {
            SenderPhase::Waiting => if idle {
                slot.blob is None && !self.permits[i] && !self.serving(i)
            } else if self.serving(i) {
                !self.permits[i] && (slot.blob is Some <==> self.coord is Notifying)
            } else {
                slot.blob is Some && self.permits[i]
            },
            SenderPhase::Woken => {
                !idle && slot.blob is Some && !self.permits[i] && !self.serving(i)
            },
            SenderPhase::Stopped => false,
            _ => !idle && slot.blob is None && !self.permits[i] && !self.serving(i),
        }
    }

    /// What holds of sender `i` once its slot is closed. A sender that has yet
    /// to wait has a permit, or is about to get one; a sender that stopped has
    /// left no batch behind.
    pub open spec fn shut_inv(self, i: int) -> bool {
        let slot = self.slots[i];
        let wakes = self.permits[i] || self.coord == (CoordPhase::<B>::NotifyingClosed { next: i });
        match self.senders[i] {
            SenderPhase::Announcing => slot.blob is None && !self.idle.contains(i) && wakes,
            SenderPhase::Waiting => wakes && (self.idle.contains(i) ==> slot.blob is None),
            SenderPhase::Woken => self.idle.contains(i) ==> slot.blob is None,
            SenderPhase::Stopped => slot.blob is None,
            _ => slot.blob is None && !self.idle.contains(i),
        }
    }

    /// What holds between any two steps.
    pub open spec fn inv(self) -> bool {
        let size = self.senders.len();
        &&& size > 0
        &&& self.slots.len() == size
        &&& self.permits.len() == size
        &&& self.idle.no_duplicates()
        &&& forall|k: int| 0 <= k < self.idle.len() ==> self.has(#[trigger] self.idle[k])
        &&& match self.coord {
            CoordPhase::Claimed { id, .. } => self.has(id) && self.senders[id] is Waiting,
            CoordPhase::Notifying { id } => self.has(id) && self.senders[id] is Waiting,
            CoordPhase::Closing { next } => self.has(next),
            CoordPhase::NotifyingClosed { next } => self.has(next),
            _ => true,
        }
        &&& forall|i: int| self.has(i) ==> (#[trigger] self.slots[i]).closed == self.shut(i)
        &&& forall|i: int|
            #![trigger self.senders[i]]
            self.has(i) ==> if self.shut(i) {
                self.shut_inv(i)
            } else {
                self.open_inv(i)
            }
    }
}

/// The invariant, of one sender.
proof fn lemma_sender_inv<B>(pool: Pool<B>, i: int)
    requires
        pool.inv(),
        pool.has(i),
    ensures
        pool.slots[i].closed == pool.shut(i),
        pool.shut(i) ==> pool.shut_inv(i),
        !pool.shut(i) ==> pool.open_inv(i),
{
    assert(pool.slots[i].closed == pool.shut(i));
    let _ = pool.senders[i];
}

/// The pool that these steps lead to.
pub open spec fn pool_after<B>(size: nat, steps: Seq<Step<B>>) -> Pool<B>
    decreases steps.len(),
{
    if steps.len() == 0 {
        Pool::start(size)
    } else {
        pool_after(size, steps.drop_last()).next(steps.last())
    }
}

/// The steps can be taken in this order.
pub open spec fn schedule<B>(size: nat, steps: Seq<Step<B>>) -> bool
    decreases steps.len(),
{
    steps.len() > 0 ==> schedule(size, steps.drop_last()) && pool_after(
        size,
        steps.drop_last(),
    ).enabled(steps.last())
}

/// Steps of the coordinator keep the invariant.
proof fn lemma_coord_step<B>(pool: Pool<B>, step: Step<B>)
    requires
        pool.inv(),
        pool.enabled(step),
        step is Produce || step is Finish || step is Claim || step is Publish || step is Notify
            || step is CloseSlot || step is NotifyClosed,
    ensures
        pool.next(step).inv(),
{
    let after = pool.next(step);
    match step {
        Step::Claim => {
            let id = pool.idle[0];
            assert(pool.idle.contains(id));
            assert forall|i: int| i != id implies #[trigger] after.idle.contains(i)
                == pool.idle.contains(i) by {
                if pool.idle.contains(i) {
                    let k = choose|k: int| 0 <= k < pool.idle.len() && pool.idle[k] == i;
                    assert(after.idle[k - 1] == i);
                }
                if after.idle.contains(i) {
                    let k = choose|k: int| 0 <= k < after.idle.len() && after.idle[k] == i;
                    assert(pool.idle[k + 1] == i);
                }
            }
            assert(!after.idle.contains(id)) by {
                if after.idle.contains(id) {
                    let k = choose|k: int| 0 <= k < after.idle.len() && after.idle[k] == id;
                    assert(pool.idle[k + 1] == id);
                }
            }
        },
        _ => {},
    }
}

/// Steps of the senders keep the invariant.
proof fn lemma_sender_step<B>(pool: Pool<B>, step: Step<B>, i: int)
    requires
        pool.inv(),
        pool.enabled(step),
        step == (Step::<B>::Announce { i }) || step == (Step::<B>::Wake { i }) || step == (Step::<
            B,
        >::Take { i }) || step == (Step::<B>::Send { i }) || step == (Step::<B>::Check { i }),
    ensures
        pool.next(step).inv(),
{
    let after = pool.next(step);
    if step is Announce {
        assert forall|j: int| j != i implies #[trigger] after.idle.contains(j)
            == pool.idle.contains(j) by {
            if pool.idle.contains(j) {
                let k = choose|k: int| 0 <= k < pool.idle.len() && pool.idle[k] == j;
                assert(after.idle[k] == j);
            }
        }
        assert(after.idle[pool.idle.len() as int] == i);
    }
}

/// However the steps interleave, the invariant holds.
pub proof fn law_invariant<B>(size: nat, steps: Seq<Step<B>>)
    requires
        size > 0,
        schedule(size, steps),
    ensures
        pool_after(size, steps).inv(),
        pool_after(size, steps).senders.len() == size,
    decreases steps.len(),
{
    if steps.len() > 0 {
        let before = pool_after(size, steps.drop_last());
        law_invariant(size, steps.drop_last());
        match steps.last() {
            Step::Announce { i } => lemma_sender_step(before, steps.last(), i),
            Step::Wake { i } => lemma_sender_step(before, steps.last(), i),
            Step::Take { i } => lemma_sender_step(before, steps.last(), i),
            Step::Send { i } => lemma_sender_step(before, steps.last(), i),
            Step::Check { i } => lemma_sender_step(before, steps.last(), i),
            _ => lemma_coord_step(before, steps.last()),
        }
    }
}

/// A slot that the coordinator is about to fill is open and empty: a batch
/// never overwrites another one and never goes to a closed slot.
pub proof fn law_publish_finds_vacant_slot<B>(size: nat, steps: Seq<Step<B>>)
    requires
        size > 0,
        schedule(size, steps),
    ensures
        pool_after(size, steps).coord matches CoordPhase::Claimed { id, .. } ==> pool_after(
            size,
            steps,
        ).has(id) && pool_after(size, steps).slots[id].vacant(),
{
    let pool = pool_after(size, steps);
    law_invariant(size, steps);
    if let CoordPhase::Claimed { id, .. } = pool.coord {
        lemma_sender_inv(pool, id);
    }
}

/// A sender that is woken always finds a batch or a closed slot.
pub proof fn law_wake_finds_work<B>(size: nat, steps: Seq<Step<B>>, i: int)
    requires
        size > 0,
        schedule(size, steps),
        0 <= i < size,
        pool_after(size, steps).senders[i] is Woken,
    ensures
        pool_after(size, steps).slots[i].actionable(),
{
    law_invariant(size, steps);
    lemma_sender_inv(pool_after(size, steps), i);
}

/// Senders outlive collecting: one stops only after its slot was closed, which
/// the coordinator does only once it is shutting down.
pub proof fn law_senders_outlive_collecting<B>(size: nat, steps: Seq<Step<B>>, i: int)
    requires
        size > 0,
        schedule(size, steps),
        0 <= i < size,
        pool_after(size, steps).senders[i] is Stopped,
    ensures
        pool_after(size, steps).slots[i].closed,
        pool_after(size, steps).coord is Closing || pool_after(size, steps).coord is NotifyingClosed
            || pool_after(size, steps).coord is Stopped,
{
    law_invariant(size, steps);
    lemma_sender_inv(pool_after(size, steps), i);
}

/// A sender is not offered another batch while it posts one: retries hold the
/// slot, since the sender is neither idle nor being served.
pub proof fn law_sending_holds_the_slot<B>(size: nat, steps: Seq<Step<B>>, i: int)
    requires
        size > 0,
        schedule(size, steps),
        0 <= i < size,
        pool_after(size, steps).senders[i] is Sending,
    ensures
        !pool_after(size, steps).idle.contains(i),
        !pool_after(size, steps).serving(i),
        pool_after(size, steps).slots[i].blob is None,
{
    law_invariant(size, steps);
    lemma_sender_inv(pool_after(size, steps), i);
}

/// A sender that reports itself idle finds room: a queue with one place for
/// each sender is never full at that point.
pub proof fn law_idle_queue_has_room<B>(size: nat, steps: Seq<Step<B>>, i: int)
    requires
        size > 0,
        schedule(size, steps),
        0 <= i < size,
        pool_after(size, steps).senders[i] is Announcing,
    ensures
        pool_after(size, steps).idle.len() < size,
{
    let pool = pool_after(size, steps);
    law_invariant(size, steps);
    lemma_sender_inv(pool, i);
    let ids = pool.idle.to_set();
    let all = vstd::set_lib::set_int_range(0, size as int);
    pool.idle.unique_seq_to_set();
    vstd::set_lib::lemma_int_range(0, size as int);
    assert forall|id: int| ids.contains(id) implies all.remove(i).contains(id) by {
        let k = choose|k: int| 0 <= k < pool.idle.len() && pool.idle[k] == id;
        assert(pool.has(pool.idle[k]));
    }
    vstd::set_lib::lemma_len_subset(ids, all.remove(i));
}

/// The coordinator, the senders and their wake-ups never all wait for one
/// another: unless the coordinator is collecting, which waits for events, or
/// everything has stopped, some step can be taken.
pub proof fn law_no_deadlock<B>(size: nat, steps: Seq<Step<B>>)
    requires
        size > 0,
        schedule(size, steps),
        !(pool_after(size, steps).coord is Collecting),
        !(pool_after(size, steps).coord is Stopped) || exists|i: int|
            0 <= i < size && !(#[trigger] pool_after(size, steps).senders[i] is Stopped),
    ensures
        exists|step: Step<B>| pool_after(size, steps).enabled(step),
{
    let pool = pool_after(size, steps);
    law_invariant(size, steps);
    if pool.coord is Holding && pool.idle.len() > 0 {
        assert(pool.enabled(Step::Claim));
    } else if pool.coord is Holding || pool.coord is Stopped {
        let i = if pool.coord is Holding {
            0
        } else {
            choose|i: int| 0 <= i < size && !(#[trigger] pool.senders[i] is Stopped)
        };
        lemma_sender_inv(pool, i);
        match pool.senders[i] {
            SenderPhase::Announcing => assert(pool.enabled(Step::Announce { i })),
            SenderPhase::Waiting => assert(pool.enabled(Step::Wake { i })),
            SenderPhase::Woken => assert(pool.enabled(Step::Take { i })),
            SenderPhase::Sending { .. } => assert(pool.enabled(Step::Send { i })),
            SenderPhase::Sent => assert(pool.enabled(Step::Check { i })),
            SenderPhase::Stopped => {},
        }
    } else if pool.coord is Claimed {
        assert(pool.enabled(Step::Publish));
    } else if pool.coord is Notifying {
        assert(pool.enabled(Step::Notify));
    } else if pool.coord is Closing {
        assert(pool.enabled(Step::CloseSlot));
    } else {
        assert(pool.enabled(Step::NotifyClosed));
    }
}

/// A batch or nothing, as a multiset.
pub open spec fn one<B>(blob: Option<B>) -> Multiset<B> {
    match blob {
        Some(b) => Multiset::singleton(b),
        None => Multiset::empty(),
    }
}

/// A batch or nothing, as a sequence.
pub open spec fn single<B>(blob: Option<B>) -> Seq<B> {
    match blob {
        Some(b) => seq![b],
        None => Seq::empty(),
    }
}

impl<B> Pool<B> {
    /// The batch that the coordinator has in hand.
    pub open spec fn in_hand(self) -> Option<B> {
        match self.coord {
            CoordPhase::Holding { blob } => Some(blob),
            CoordPhase::Claimed { blob, .. } => Some(blob),
            _ => None,
        }
    }

    /// The batch that sender `i` is posting.
    pub open spec fn posting(self, i: int) -> Option<B> {
        match self.senders[i] {
            SenderPhase::Sending { blob } => Some(blob),
            _ => None,
        }
    }

    /// The batches in the slot and the hands of sender `i`.
    pub open spec fn with_sender(self, i: int) -> Multiset<B> {
        one(self.slots[i].blob).add(one(self.posting(i)))
    }

    /// The batches with the first `upto` senders.
    pub open spec fn with_senders(self, upto: nat) -> Multiset<B>
        decreases upto,
    {
        if upto == 0 {
            Multiset::empty()
        } else {
            self.with_senders((upto - 1) as nat).add(self.with_sender(upto - 1))
        }
    }

    /// Every batch that was collected is with the coordinator, with a sender, or
    /// settled, and in one of these places only.
    pub open spec fn conserved(self) -> bool {
        self.produced.to_multiset() == self.settled.to_multiset().add(
            self.with_senders(self.senders.len()),
        ).add(one(self.in_hand()))
    }

    /// With a single sender, the batches stand in line: settled, being posted,
    /// in the slot, in the coordinator's hand.
    pub open spec fn in_line(self) -> bool {
        self.produced == self.settled + single(self.posting(0)) + single(self.slots[0].blob)
            + single(self.in_hand())
    }
}

proof fn lemma_with_senders<B>(a: Pool<B>, b: Pool<B>, j: int, upto: nat)
    requires
        forall|i: int|
            0 <= i < upto && i != j ==> #[trigger] a.with_sender(i) == b.with_sender(i),
    ensures
        0 <= j < upto ==> b.with_senders(upto).add(a.with_sender(j)) == a.with_senders(upto).add(
            b.with_sender(j),
        ),
        !(0 <= j < upto) ==> b.with_senders(upto) == a.with_senders(upto),
    decreases upto,
{
    if upto > 0 {
        lemma_with_senders(a, b, j, (upto - 1) as nat);
        assert(upto - 1 != j ==> a.with_sender(upto - 1) == b.with_sender(upto - 1));
        if 0 <= j < upto - 1 {
            let left = b.with_senders((upto - 1) as nat).add(a.with_sender(j));
            let right = a.with_senders((upto - 1) as nat).add(b.with_sender(j));
            let last = a.with_sender(upto - 1);
            assert(b.with_senders(upto).add(a.with_sender(j)) =~= left.add(last));
            assert(a.with_senders(upto).add(b.with_sender(j)) =~= right.add(last));
        } else if j == upto - 1 {
            let rest = a.with_senders(j as nat);
            assert(rest.add(b.with_sender(j)).add(a.with_sender(j)) =~= rest.add(
                a.with_sender(j),
            ).add(b.with_sender(j)));
        }
    }
}

proof fn lemma_cancel<B>(a: Multiset<B>, b: Multiset<B>, c: Multiset<B>)
    requires
        a.add(c) == b.add(c),
    ensures
        a == b,
{
    assert forall|x: B| a.count(x) == b.count(x) by {
        assert(a.add(c).count(x) == a.count(x) + c.count(x));
        assert(b.add(c).count(x) == b.count(x) + c.count(x));
    }
    assert(a =~= b);
}

proof fn lemma_conserved_step<B>(pool: Pool<B>, step: Step<B>)
    requires
        pool.inv(),
        pool.enabled(step),
        pool.conserved(),
    ensures
        pool.next(step).conserved(),
{
    broadcast use vstd::seq_lib::group_to_multiset_ensures;

    let after = pool.next(step);
    let j = match step {
        Step::Publish => pool.coord->Claimed_id,
        Step::CloseSlot => pool.coord->Closing_next,
        Step::Announce { i } => i,
        Step::Wake { i } => i,
        Step::Take { i } => i,
        Step::Send { i } => i,
        Step::Check { i } => i,
        _ => -1,
    };
    assert forall|i: int| 0 <= i < pool.senders.len() && i != j implies #[trigger] pool.with_sender(
        i,
    ) == after.with_sender(i) by {
        assert(after.slots[i] == pool.slots[i]);
        assert(after.senders[i] == pool.senders[i]);
    }
    lemma_with_senders(pool, after, j, pool.senders.len());
    assert(after.senders.len() == pool.senders.len());
    if 0 <= j < pool.senders.len() {
        lemma_sender_inv(pool, j);
    }
    let total = after.settled.to_multiset().add(after.with_senders(after.senders.len())).add(
        one(after.in_hand()),
    );
    match step {
        Step::Produce { blob } => {
            assert(after.produced.to_multiset() =~= total);
        },
        Step::Publish => {
            assert(pool.with_sender(j) =~= Multiset::empty());
            assert(after.with_sender(j) =~= one(pool.in_hand()));
            assert(after.with_senders(after.senders.len()) =~= pool.with_senders(
                pool.senders.len(),
            ).add(one(pool.in_hand())));
            assert(after.produced.to_multiset() =~= total);
        },
        Step::Send { i } => {
            let blob = pool.senders[i]->Sending_blob;
            assert(pool.with_sender(j) =~= Multiset::singleton(blob));
            assert(after.with_sender(j) =~= Multiset::empty());
            assert(after.with_senders(after.senders.len()).add(Multiset::singleton(blob))
                =~= pool.with_senders(pool.senders.len()));
            assert(after.settled.to_multiset() =~= pool.settled.to_multiset().insert(blob));
            assert(after.produced.to_multiset() =~= total);
        },
        _ => {
            if j >= 0 {
                assert(pool.with_sender(j) =~= after.with_sender(j));
                lemma_cancel(
                    after.with_senders(after.senders.len()),
                    pool.with_senders(pool.senders.len()),
                    pool.with_sender(j),
                );
                assert(after.with_senders(after.senders.len()) =~= pool.with_senders(
                    pool.senders.len(),
                ));
            }
            assert(after.produced.to_multiset() =~= total);
        },
    }
}

proof fn lemma_with_senders_empty<B>(pool: Pool<B>, upto: nat)
    requires
        forall|i: int| 0 <= i < upto ==> #[trigger] pool.with_sender(i) == Multiset::<B>::empty(),
    ensures
        pool.with_senders(upto) == Multiset::<B>::empty(),
    decreases upto,
{
    if upto > 0 {
        lemma_with_senders_empty(pool, (upto - 1) as nat);
        assert(pool.with_sender(upto - 1) == Multiset::<B>::empty());
    }
    assert(pool.with_senders(upto) =~= Multiset::<B>::empty());
}

/// No batch is lost or handed to two senders: at any time, each batch that was
/// collected is in exactly one place, with the coordinator, with one sender, or
/// settled.
pub proof fn law_conserved<B>(size: nat, steps: Seq<Step<B>>)
    requires
        size > 0,
        schedule(size, steps),
    ensures
        pool_after(size, steps).conserved(),
    decreases steps.len(),
{
    if steps.len() > 0 {
        law_conserved(size, steps.drop_last());
        law_invariant(size, steps.drop_last());
        lemma_conserved_step(pool_after(size, steps.drop_last()), steps.last());
    } else {
        broadcast use vstd::seq_lib::group_to_multiset_ensures;

        let pool = Pool::<B>::start(size);
        assert forall|i: int| 0 <= i < size implies #[trigger] pool.with_sender(i) == Multiset::<
            B,
        >::empty() by {
            assert(pool.with_sender(i) =~= Multiset::<B>::empty());
        }
        lemma_with_senders_empty(pool, size);
        assert(Seq::<B>::empty().to_multiset() =~= Multiset::empty());
        assert(pool.produced.to_multiset() =~= pool.settled.to_multiset().add(
            pool.with_senders(pool.senders.len()),
        ).add(one(pool.in_hand())));
    }
}

/// Shutdown is graceful: once the coordinator and all senders have stopped,
/// every batch that was ever collected has been settled, once.
pub proof fn law_shutdown_settles_everything<B>(size: nat, steps: Seq<Step<B>>)
    requires
        size > 0,
        schedule(size, steps),
        pool_after(size, steps).coord is Stopped,
        forall|i: int| 0 <= i < size ==> #[trigger] pool_after(size, steps).senders[i] is Stopped,
    ensures
        pool_after(size, steps).settled.to_multiset() == pool_after(
            size,
            steps,
        ).produced.to_multiset(),
{
    let pool = pool_after(size, steps);
    law_invariant(size, steps);
    law_conserved(size, steps);
    assert forall|i: int| 0 <= i < size implies #[trigger] pool.with_sender(i) == Multiset::<
        B,
    >::empty() by {
        lemma_sender_inv(pool, i);
        assert(pool.with_sender(i) =~= Multiset::<B>::empty());
    }
    lemma_with_senders_empty(pool, size);
    assert(pool.settled.to_multiset() =~= pool.produced.to_multiset());
}

/// With a single sender, batches are settled in the order in which they were
/// collected.
pub proof fn law_single_sender_keeps_order<B>(steps: Seq<Step<B>>)
    requires
        schedule(1, steps),
    ensures
        pool_after(1, steps).in_line(),
        pool_after(1, steps).settled.is_prefix_of(pool_after(1, steps).produced),
    decreases steps.len(),
{
    let after = pool_after(1, steps);
    if steps.len() > 0 {
        let pool = pool_after(1, steps.drop_last());
        law_single_sender_keeps_order(steps.drop_last());
        law_invariant(1, steps.drop_last());
        lemma_sender_inv(pool, 0);
    }
    assert(after.produced =~= after.settled + single(after.posting(0)) + single(
        after.slots[0].blob,
    ) + single(after.in_hand()));
}

proof fn lemma_with_senders_len<B>(pool: Pool<B>, upto: nat)
    requires
        pool.inv(),
        upto <= pool.senders.len(),
    ensures
        pool.with_senders(upto).len() <= upto,
    decreases upto,
{
    broadcast use vstd::multiset::group_multiset_axioms;

    if upto > 0 {
        lemma_with_senders_len(pool, (upto - 1) as nat);
        lemma_with_sender_len(pool, upto - 1);
    }
}

proof fn lemma_with_sender_len<B>(pool: Pool<B>, i: int)
    requires
        pool.inv(),
        pool.has(i),
    ensures
        pool.with_sender(i).len() <= 1,
{
    broadcast use vstd::multiset::group_multiset_axioms;

    lemma_sender_inv(pool, i);
}

/// The pool size bounds concurrency: a sender has one batch at most, whether in
/// its slot or on its way, so no more batches than senders are on their way.
pub proof fn law_one_batch_per_sender<B>(size: nat, steps: Seq<Step<B>>, i: int)
    requires
        size > 0,
        schedule(size, steps),
        0 <= i < size,
    ensures
        pool_after(size, steps).with_sender(i).len() <= 1,
        pool_after(size, steps).with_senders(size).len() <= size,
{
    law_invariant(size, steps);
    lemma_with_sender_len(pool_after(size, steps), i);
    lemma_with_senders_len(pool_after(size, steps), size);
}

/// A full pool pushes back: no more than one batch for each sender, and the one
/// that the coordinator may have in hand, are collected but not settled, and
/// while it has one in hand no other is collected.
pub proof fn law_backpressure<B>(size: nat, steps: Seq<Step<B>>)
    requires
        size > 0,
        schedule(size, steps),
    ensures
        pool_after(size, steps).produced.len() <= pool_after(size, steps).settled.len() + size + (
        if pool_after(size, steps).in_hand() is Some {
            1int
        } else {
            0
        }),
        pool_after(size, steps).in_hand() is Some ==> forall|blob: B| !pool_after(
            size,
            steps,
        ).enabled(Step::Produce { blob }),
{
    broadcast use vstd::multiset::group_multiset_axioms;
    broadcast use vstd::seq_lib::group_to_multiset_ensures;

    let pool = pool_after(size, steps);
    law_invariant(size, steps);
    law_conserved(size, steps);
    lemma_with_senders_len(pool, size);
    assert(pool.produced.to_multiset().len() == pool.produced.len());
    assert(pool.settled.to_multiset().len() == pool.settled.len());
}

/// How often senders reported themselves idle in these steps.
pub open spec fn idle_reports<B>(steps: Seq<Step<B>>) -> nat
    decreases steps.len(),
{
    if steps.len() == 0 {
        0
    } else if steps.last() is Announce {
        idle_reports(steps.drop_last()) + 1
    } else {
        idle_reports(steps.drop_last())
    }
}

/// Every batch but the one that waits for an idle sender has used up one idle
/// report, and every report that is not used up is still in the queue.
pub proof fn law_one_batch_per_idle_report<B>(size: nat, steps: Seq<Step<B>>)
    requires
        size > 0,
        schedule(size, steps),
    ensures
        pool_after(size, steps).produced.len() + pool_after(size, steps).idle.len()
            == idle_reports(steps) + (if pool_after(size, steps).coord is Holding {
            1int
        } else {
            0
        }),
    decreases steps.len(),
{
    if steps.len() > 0 {
        law_one_batch_per_idle_report(size, steps.drop_last());
    }
}

impl<B> Pool<B> {
    /// The coordinator is shutting down, or has.
    pub open spec fn shutting_down(self) -> bool {
        self.coord is Closing || self.coord is NotifyingClosed || self.coord is Stopped
    }

    /// How many steps sender `i` has left at most, once no batch is handed out
    /// any more.
    pub open spec fn sender_left(self, i: int) -> nat {
        match self.senders[i] {
            SenderPhase::Waiting => if self.slots[i].blob is Some {
                7
            } else {
                2
            },
            SenderPhase::Woken => if self.slots[i].blob is Some {
                6
            } else {
                1
            },
            SenderPhase::Sending { .. } => 5,
            SenderPhase::Sent => 4,
            SenderPhase::Announcing => 3,
            SenderPhase::Stopped => 0,
        }
    }

    /// How many steps the first `upto` senders have left at most.
    pub open spec fn senders_left(self, upto: nat) -> nat
        decreases upto,
    {
        if upto == 0 {
            0
        } else {
            self.senders_left((upto - 1) as nat) + self.sender_left(upto - 1)
        }
    }

    /// How many steps the coordinator has left in shutting down.
    pub open spec fn coord_left(self) -> int {
        match self.coord {
            CoordPhase::Closing { next } => 2 * (self.senders.len() - next),
            CoordPhase::NotifyingClosed { next } => 2 * (self.senders.len() - next) - 1,
            _ => 0,
        }
    }

    /// How many steps are left at most in shutting down.
    pub open spec fn left(self) -> int {
        self.coord_left() + self.senders_left(self.senders.len())
    }
}

proof fn lemma_senders_left<B>(a: Pool<B>, b: Pool<B>, j: int, upto: nat)
    requires
        forall|i: int|
            0 <= i < upto && i != j ==> #[trigger] a.sender_left(i) == b.sender_left(i),
    ensures
        0 <= j < upto ==> b.senders_left(upto) + a.sender_left(j) == a.senders_left(upto)
            + b.sender_left(j),
        !(0 <= j < upto) ==> b.senders_left(upto) == a.senders_left(upto),
    decreases upto,
{
    if upto > 0 {
        lemma_senders_left(a, b, j, (upto - 1) as nat);
        assert(upto - 1 != j ==> a.sender_left(upto - 1) == b.sender_left(upto - 1));
    }
}

proof fn lemma_senders_left_bound<B>(pool: Pool<B>, upto: nat)
    ensures
        pool.senders_left(upto) <= 7 * upto,
    decreases upto,
{
    if upto > 0 {
        lemma_senders_left_bound(pool, (upto - 1) as nat);
    }
}

/// Shutdown ends: every step that is taken while shutting down brings the end
/// closer, and at the outset it is no further away than nine steps for each
/// sender. As some step can be taken until everything has stopped, everything
/// stops.
pub proof fn law_shutdown_ends<B>(size: nat, steps: Seq<Step<B>>, step: Step<B>)
    requires
        size > 0,
        schedule(size, steps),
        pool_after(size, steps).shutting_down(),
        pool_after(size, steps).enabled(step),
    ensures
        0 <= pool_after(size, steps).left() <= 9 * size,
        pool_after(size, steps).next(step).shutting_down(),
        0 <= pool_after(size, steps).next(step).left() < pool_after(size, steps).left(),
{
    let pool = pool_after(size, steps);
    let after = pool.next(step);
    law_invariant(size, steps);
    assert(steps.push(step).drop_last() =~= steps);
    law_invariant(size, steps.push(step));
    lemma_senders_left_bound(pool, size);
    let j = match step {
        Step::Announce { i } => i,
        Step::Wake { i } => i,
        Step::Take { i } => i,
        Step::Send { i } => i,
        Step::Check { i } => i,
        _ => -1,
    };
    assert forall|i: int| 0 <= i < size && i != j implies #[trigger] pool.sender_left(i)
        == after.sender_left(i) by {
        assert(after.slots[i].blob == pool.slots[i].blob);
        assert(after.senders[i] == pool.senders[i]);
    }
    lemma_senders_left(pool, after, j, size);
    if j >= 0 {
        lemma_sender_inv(pool, j);
        assert(after.sender_left(j) < pool.sender_left(j));
    }
}

} // verus!
