//! Handing batches to senders.

use vstd::prelude::*;

#[allow(unused_imports)]
use crate::batch::BatchBlob;
#[allow(unused_imports)]
use crate::slot::{new_slots, AfterSend, SenderSet, SenderSlotState, SenderStep};
#[allow(unused_imports)]
use crate::tasks::{
    CoordAction, CoordPhase, Coordinator, SenderAction, SenderPhase, SenderTask,
};

verus! {

/// A pool begins with one slot for each sender, all open and empty.
pub proof fn law_slots_begin_open_and_empty(
    size: usize,
    r: Vec<SenderSlotState>,
    one: SenderSlotState,
)
    requires
        call_ensures(new_slots, (size,), r),
        call_ensures(<SenderSlotState as Default>::default, (), one),
    ensures
        r@.len() == size,
        forall|i: int| 0 <= i < size ==> (#[trigger] r@[i]).blob is None && !r@[i].closed,
        one.blob is None && !one.closed,
{
    assert forall|i: int| 0 <= i < size implies (#[trigger] r@[i]).blob is None
        && !r@[i].closed by {
        assert(r@[i]@ == crate::slot::SlotModel::<BatchBlob>::empty());
    }
    assert(one@ == crate::slot::SlotModel::<BatchBlob>::empty());
}

/// A batch that is put into a slot is the one that a woken sender takes out,
/// whether or not the slot was closed in between, and leaves the slot empty.
pub proof fn law_sender_takes_out_what_was_put_in(
    put: &mut SenderSlotState,
    blob: BatchBlob,
    taken: &mut SenderSlotState,
    r: SenderStep,
)
    requires
        old(put).blob is None,
        !old(put).closed,
        call_ensures(SenderSlotState::publish, (put, blob), ()),
        old(taken).blob == final(put).blob,
        call_ensures(SenderSlotState::wake, (taken,), r),
    ensures
        !final(put).closed,
        r == SenderStep::Send(blob),
        final(taken).blob is None,
        final(taken).closed == old(taken).closed,
{
    assert(final(put)@.blob == final(put).blob && final(put)@.closed == final(put).closed);
    assert(old(taken)@.blob == old(taken).blob && old(taken)@.closed == old(taken).closed);
    assert(final(taken)@.blob == final(taken).blob && final(taken)@.closed == final(taken).closed);
    assert(old(put)@.closed == old(put).closed);
}

/// A sender that finds no batch in a closed slot stops, and changes nothing.
pub proof fn law_sender_stops_at_a_closed_empty_slot(slot: &mut SenderSlotState, r: SenderStep)
    requires
        old(slot).blob is None,
        old(slot).closed,
        call_ensures(SenderSlotState::wake, (slot,), r),
    ensures
        r is Stop,
        final(slot).blob is None,
        final(slot).closed,
{
    assert(old(slot)@.blob == old(slot).blob && old(slot)@.closed == old(slot).closed);
    assert(final(slot)@.blob == final(slot).blob && final(slot)@.closed == final(slot).closed);
}

/// Closing a slot keeps the batch that may be in it.
pub proof fn law_closing_keeps_the_batch(slot: &mut SenderSlotState)
    requires
        call_ensures(SenderSlotState::close, (slot,), ()),
    ensures
        final(slot).closed,
        final(slot).blob == old(slot).blob,
{
    assert(old(slot)@.blob == old(slot).blob);
    assert(final(slot)@.blob == final(slot).blob && final(slot)@.closed == final(slot).closed);
}

/// After a post a sender stops exactly if its slot is closed.
pub proof fn law_closed_slot_ends_a_sender(slot: SenderSlotState, r: AfterSend)
    requires
        call_ensures(SenderSlotState::after_send, (&slot,), r),
    ensures
        r is Stop <==> slot.closed,
        r is Announce <==> !slot.closed,
{
    assert(slot@.closed == slot.closed);
}

/// What a sender does next goes by its phase, and it has a batch to post exactly
/// while it posts.
pub proof fn law_sender_acts_by_its_phase(
    task: SenderTask,
    r: SenderAction,
    batch: Option<&BatchBlob>,
)
    requires
        call_ensures(SenderTask::action, (&task,), r),
        call_ensures(SenderTask::batch, (&task,), batch),
    ensures
        r is Announce <==> task.phase is Announcing,
        r is AwaitWake <==> task.phase is Waiting,
        r is Look <==> task.phase is Woken,
        r is Post <==> task.phase is Sending,
        r is Check <==> task.phase is Sent,
        r is Stop <==> task.phase is Stopped,
        match task.phase {
            SenderPhase::Sending { blob } => batch matches Some(b) && *b == blob,
            _ => batch is None,
        },
{
}

/// A sender begins by reporting itself idle.
pub proof fn law_sender_begins(r: SenderTask)
    requires
        call_ensures(SenderTask::new, (), r),
    ensures
        r.phase is Announcing,
{
}

/// A sender whose report is taken waits to be woken; one whose report nobody
/// takes stops.
pub proof fn law_sender_reports_or_stops(taken: &mut SenderTask, refused: &mut SenderTask)
    requires
        old(taken).phase is Announcing,
        call_ensures(SenderTask::announced, (taken,), ()),
        old(refused).phase is Announcing,
        call_ensures(SenderTask::forsaken, (refused,), ()),
    ensures
        final(taken).phase is Waiting,
        final(refused).phase is Stopped,
{
}

/// A woken sender looks into its slot, and after a post it looks whether the slot
/// is closed.
pub proof fn law_sender_looks_after_waking_and_posting(
    woken: &mut SenderTask,
    posted: &mut SenderTask,
)
    requires
        old(woken).phase is Waiting,
        call_ensures(SenderTask::woken, (woken,), ()),
        old(posted).phase is Sending,
        call_ensures(SenderTask::posted, (posted,), ()),
    ensures
        final(woken).phase is Woken,
        final(posted).phase is Sent,
{
}

/// A sender that looks into its slot posts the batch that is there, and stops if
/// none is; the slot is left empty, and closed if it was.
pub proof fn law_sender_posts_what_it_finds(task: &mut SenderTask, slot: &mut SenderSlotState)
    requires
        old(task).phase is Woken,
        old(slot).blob is Some || old(slot).closed,
        call_ensures(SenderTask::look, (task, slot), ()),
    ensures
        match old(slot).blob {
            Some(x) => final(task).phase matches SenderPhase::Sending { blob } && blob == x,
            None => final(task).phase is Stopped,
        },
        final(slot).blob is None,
        final(slot).closed == old(slot).closed,
{
    assert(old(slot)@.blob == old(slot).blob && old(slot)@.closed == old(slot).closed);
    assert(final(slot)@.blob == final(slot).blob && final(slot)@.closed == final(slot).closed);
}

/// A sender that is done posting stops exactly if its slot is closed, and reports
/// itself idle again otherwise.
pub proof fn law_sender_goes_on_while_its_slot_is_open(task: &mut SenderTask, slot: SenderSlotState)
    requires
        old(task).phase is Sent,
        call_ensures(SenderTask::check, (task, &slot), ()),
    ensures
        slot.closed ==> final(task).phase is Stopped,
        !slot.closed ==> final(task).phase is Announcing,
{
    assert(slot@.closed == slot.closed);
}

/// A coordinator begins by collecting, with nothing held, for the given number of
/// events and of senders.
pub proof fn law_coordinator_begins_collecting(
    collect_target: usize,
    pool_size: usize,
    r: Coordinator,
)
    requires
        collect_target > 0,
        pool_size > 0,
        call_ensures(Coordinator::new, (collect_target, pool_size), r),
    ensures
        r.phase() is Collecting,
        r.held().target == collect_target,
        r.held().pending.len() == 0,
        r.size() == pool_size,
{
}

/// What a coordinator does next goes by its phase: it receives exactly what its
/// batch still lacks, with a fresh timer exactly if the batch is empty; waits for
/// an idle sender; fills the slot of, wakes, or closes the slot of the sender that
/// it has come to; or stops.
pub proof fn law_coordinator_acts_by_its_phase(c: Coordinator, r: CoordAction)
    requires
        c.wf(),
        call_ensures(Coordinator::action, (&c,), r),
    ensures
        match c.phase() {
            CoordPhase::Collecting => r matches CoordAction::Receive { limit, restart_timer }
                && limit + c.held().pending.len() == c.held().target && restart_timer == (
            c.held().pending.len() == 0),
            CoordPhase::Holding { .. } => r is AwaitIdle,
            CoordPhase::Claimed { id, .. } => r matches CoordAction::Fill { id: x } && x == id,
            CoordPhase::Notifying { id } => r matches CoordAction::Wake { id: x } && x == id,
            CoordPhase::Closing { next } => r matches CoordAction::Close { id: x } && x == next,
            CoordPhase::NotifyingClosed { next } => r matches CoordAction::Wake { id: x } && x
                == next,
            CoordPhase::Stopped => r is Stop,
        },
{
}

/// The batch in hand goes to the sender that is idle: it stays the same while the
/// coordinator claims the sender, and is what it puts into the slot. Then it wakes
/// that sender. What is held for the next batch stays.
pub proof fn law_batch_goes_to_the_idle_sender(
    claiming: &mut Coordinator,
    id: usize,
    filling: &mut Coordinator,
    slot: &mut SenderSlotState,
    waking: &mut Coordinator,
)
    requires
        old(claiming).phase() is Holding,
        call_ensures(Coordinator::claimed, (claiming, id), ()),
        *old(filling) == *final(claiming),
        old(slot).blob is None,
        !old(slot).closed,
        call_ensures(Coordinator::publish, (filling, slot), ()),
        *old(waking) == *final(filling),
        call_ensures(Coordinator::notified, (waking,), ()),
    ensures
        final(claiming).phase() matches CoordPhase::Claimed { id: x, blob } && x == id && blob
            == old(claiming).phase()->Holding_blob,
        final(slot).blob == Some(old(claiming).phase()->Holding_blob),
        !final(slot).closed,
        final(filling).phase() matches CoordPhase::Notifying { id: x } && x == id,
        final(waking).phase() is Collecting,
        final(waking).size() == old(claiming).size(),
        final(waking).held() == old(claiming).held(),
{
    assert(old(slot)@.closed == old(slot).closed);
    assert(final(slot)@.blob == final(slot).blob && final(slot)@.closed == final(slot).closed);
}

/// Shutting down closes one slot after the other, keeping the batches in them,
/// and wakes each sender, up to the last of the pool.
pub proof fn law_every_slot_is_closed_in_turn(
    closing: &mut Coordinator,
    slot: &mut SenderSlotState,
    waking: &mut Coordinator,
)
    requires
        old(closing).phase() is Closing,
        call_ensures(Coordinator::close, (closing, slot), ()),
        *old(waking) == *final(closing),
        call_ensures(Coordinator::notified, (waking,), ()),
    ensures
        ({
            let next = old(closing).phase()->Closing_next;
            let size = old(closing).size();
            &&& final(slot).closed
            &&& final(slot).blob == old(slot).blob
            &&& final(closing).phase() == (CoordPhase::<BatchBlob>::NotifyingClosed { next })
            &&& next + 1 < size ==> final(waking).phase() == (CoordPhase::<BatchBlob>::Closing {
                next: next + 1,
            })
            &&& next + 1 >= size ==> final(waking).phase() is Stopped
            &&& final(waking).size() == size
        }),
{
    assert(old(slot)@.blob == old(slot).blob);
    assert(final(slot)@.blob == final(slot).blob && final(slot)@.closed == final(slot).closed);
}

/// A set of senders begins with none finished; beginning a round forgets what was
/// pending and nothing else.
pub proof fn law_rounds_begin(size: usize, fresh: SenderSet, set: &mut SenderSet)
    requires
        call_ensures(SenderSet::new, (size,), fresh),
        call_ensures(SenderSet::begin, (set,), ()),
    ensures
        fresh@.done.len() == size,
        forall|i: int| 0 <= i < size ==> !(#[trigger] fresh@.done[i]),
        !final(set)@.pending,
        final(set)@.done == old(set)@.done,
{
}

/// A sender is polled exactly if it has not finished. One that answers that it
/// has is finished from then on; one that has not leaves the round pending. No
/// other sender is concerned, and the round is ready exactly if nothing is pending.
pub proof fn law_poll_concerns_one_sender(
    set: &mut SenderSet,
    i: usize,
    ready: bool,
    needed: bool,
    all_ready: bool,
    j: int,
)
    requires
        i < old(set)@.done.len(),
        call_ensures(SenderSet::needs_poll, (&*old(set), i), needed),
        call_ensures(SenderSet::polled, (set, i, ready), ()),
        call_ensures(SenderSet::is_ready, (&*final(set),), all_ready),
        0 <= j < old(set)@.done.len(),
    ensures
        needed == !old(set)@.done[i as int],
        final(set)@.done.len() == old(set)@.done.len(),
        final(set)@.done[j] == (old(set)@.done[j] || (j == i && ready)),
        all_ready == (!old(set)@.pending && ready),
{
}

} // verus!
