//! Collecting events into batches.

use vstd::prelude::*;

#[allow(unused_imports)]
use crate::batch::{
    contents, frame, possible, received, run, sent, BatchBlob, CollectAction, CollectEvent,
    Collector, CollectorView, Decision, Run,
};
#[allow(unused_imports)]
use crate::outside::{bytes_content, zstd_text};
#[allow(unused_imports)]
use crate::tasks::{CoordPhase, Coordinator};

verus! {

/// The text of a batch is that of its records, one after the other, and each
/// record is followed by one line feed.
pub proof fn law_text_of_a_batch(a: Seq<Seq<u8>>, b: Seq<Seq<u8>>, record: Seq<u8>)
    ensures
        frame(Seq::empty()) == Seq::<u8>::empty(),
        frame(seq![record]) == record + seq![10u8],
        frame(a + b) == frame(a) + frame(b),
    decreases b.len(),
{
    let one = seq![record];
    assert(one.drop_last() =~= Seq::empty());
    assert(one.last() == record && frame(one.drop_last()) == Seq::<u8>::empty());
    assert(frame(one) =~= record + seq![10u8]);
    if b.len() == 0 {
        assert(a + b =~= a);
        assert(frame(a) + frame(b) =~= frame(a));
    } else {
        law_text_of_a_batch(a, b.drop_last(), record);
        assert((a + b).drop_last() =~= a + b.drop_last());
        assert(frame(a + b) =~= frame(a) + frame(b));
    }
}

/// The batch holds these records: their number, and as one zstd frame their text.
pub open spec fn holds(blob: BatchBlob, records: Seq<Seq<u8>>) -> bool {
    &&& blob.evts_count == records.len()
    &&& zstd_text(bytes_content(blob.body)) == Some(frame(records))
}

/// These are the records that were held, followed by those that came.
pub open spec fn followed_by(
    all: Seq<Seq<u8>>,
    held: Seq<Seq<u8>>,
    came: Seq<Vec<u8>>,
) -> bool {
    &&& all.len() == held.len() + came.len()
    &&& forall|i: int| 0 <= i < held.len() ==> #[trigger] all[i] == held[i]
    &&& forall|i: int| held.len() <= i < all.len() ==> #[trigger] all[i] == came[i - held.len()]@
}

proof fn lemma_followed_by(all: Seq<Seq<u8>>, held: Seq<Seq<u8>>, came: Seq<Vec<u8>>)
    requires
        followed_by(all, held, came),
    ensures
        all == held + contents(came),
{
    assert(all =~= held + contents(came));
}

/// A new collector is after the number of events that it was given, and holds
/// none.
pub proof fn law_new_collector(collect_target: usize, r: Collector)
    requires
        collect_target > 0,
        call_ensures(Collector::new, (collect_target,), r),
    ensures
        r@.target == collect_target,
        r@.pending.len() == 0,
{
}

/// A collector asks for exactly what its batch still lacks, with a fresh timer
/// exactly if the batch is empty.
pub proof fn law_asks_for_what_is_lacking(c: Collector, r: CollectAction)
    requires
        c@.pending.len() < c@.target <= usize::MAX,
        call_ensures(Collector::begin, (&c,), r),
    ensures
        r matches CollectAction::Receive { limit, restart_timer } && limit + c@.pending.len()
            == c@.target && restart_timer == (c@.pending.len() == 0),
{
}

/// Events that came go behind those that are held. While the batch is short of
/// its target the collector goes on receiving, for exactly what is lacking and
/// under the same timer; the batch is sent when it reaches the target, and not
/// before. It keeps its target throughout.
pub proof fn law_full_batches_are_sent_and_no_others(
    c: &mut Collector,
    records: Vec<Vec<u8>>,
    r: CollectAction,
    all: Seq<Seq<u8>>,
)
    requires
        old(c)@.target <= usize::MAX,
        0 < records@.len(),
        old(c)@.pending.len() + records@.len() <= old(c)@.target,
        followed_by(all, old(c)@.pending, records@),
        call_ensures(Collector::on_read, (c, &records), r),
    ensures
        final(c)@.target == old(c)@.target,
        all.len() < old(c)@.target ==> final(c)@.pending == all && (
        r matches CollectAction::Receive { limit, restart_timer } && limit + all.len()
            == old(c)@.target && !restart_timer),
        all.len() == old(c)@.target ==> final(c)@.pending.len() == 0 && (
        r matches CollectAction::Flush(blob) && holds(blob, all)),
{
    lemma_followed_by(all, old(c)@.pending, records@);
}

/// A closed queue has the collector send what it holds, and stop exactly if that
/// is nothing.
pub proof fn law_closed_queue_flushes_or_stops(
    c: &mut Collector,
    records: Vec<Vec<u8>>,
    r: CollectAction,
)
    requires
        old(c)@.pending.len() < old(c)@.target,
        records@.len() == 0,
        call_ensures(Collector::on_read, (c, &records), r),
    ensures
        final(c)@.target == old(c)@.target,
        final(c)@.pending.len() == 0,
        old(c)@.pending.len() == 0 ==> r is Close,
        old(c)@.pending.len() > 0 ==> (r matches CollectAction::Flush(blob) && holds(
            blob,
            old(c)@.pending,
        )),
{
}

/// A timeout has the collector send what it holds; if that is nothing, it waits
/// for a whole batch again, under a fresh timer.
pub proof fn law_timeout_flushes_or_waits(c: &mut Collector, r: CollectAction)
    requires
        old(c)@.pending.len() < old(c)@.target <= usize::MAX,
        call_ensures(Collector::on_elapsed, (c,), r),
    ensures
        final(c)@.target == old(c)@.target,
        final(c)@.pending.len() == 0,
        old(c)@.pending.len() == 0 ==> (r matches CollectAction::Receive { limit, restart_timer }
            && limit == old(c)@.target && restart_timer),
        old(c)@.pending.len() > 0 ==> (r matches CollectAction::Flush(blob) && holds(
            blob,
            old(c)@.pending,
        )),
{
}

/// The same of a coordinator: it holds a full batch, or goes on collecting.
pub proof fn law_coordinator_collects_full_batches(
    c: &mut Coordinator,
    records: Vec<Vec<u8>>,
    all: Seq<Seq<u8>>,
)
    requires
        old(c).phase() is Collecting,
        0 < records@.len(),
        old(c).held().pending.len() + records@.len() <= old(c).held().target,
        followed_by(all, old(c).held().pending, records@),
        call_ensures(Coordinator::on_read, (c, &records), ()),
    ensures
        final(c).size() == old(c).size(),
        final(c).held().target == old(c).held().target,
        all.len() < old(c).held().target ==> final(c).phase() is Collecting
            && final(c).held().pending == all,
        all.len() == old(c).held().target ==> final(c).held().pending.len() == 0 && (
        final(c).phase() matches CoordPhase::Holding { blob } && holds(blob, all)),
{
    lemma_followed_by(all, old(c).held().pending, records@);
}

/// A closed queue has a coordinator take what it holds in hand, or begin to close
/// its slots, from the first, if it holds nothing.
pub proof fn law_coordinator_heeds_closed_queue(c: &mut Coordinator, records: Vec<Vec<u8>>)
    requires
        old(c).phase() is Collecting,
        old(c).held().pending.len() < old(c).held().target,
        records@.len() == 0,
        call_ensures(Coordinator::on_read, (c, &records), ()),
    ensures
        final(c).size() == old(c).size(),
        final(c).held().target == old(c).held().target,
        final(c).held().pending.len() == 0,
        old(c).held().pending.len() == 0 ==> (final(c).phase() matches CoordPhase::Closing { next }
            && next == 0),
        old(c).held().pending.len() > 0 ==> (final(c).phase() matches CoordPhase::Holding { blob }
            && holds(blob, old(c).held().pending)),
{
}

/// A timeout has a coordinator take what it holds in hand, or go on collecting if
/// it holds nothing.
pub proof fn law_coordinator_heeds_timeout(c: &mut Coordinator)
    requires
        old(c).phase() is Collecting,
        old(c).held().pending.len() < old(c).held().target,
        call_ensures(Coordinator::on_elapsed, (c,), ()),
    ensures
        final(c).size() == old(c).size(),
        final(c).held().target == old(c).held().target,
        final(c).held().pending.len() == 0,
        old(c).held().pending.len() == 0 ==> final(c).phase() is Collecting,
        old(c).held().pending.len() > 0 ==> (final(c).phase() matches CoordPhase::Holding { blob }
            && holds(blob, old(c).held().pending)),
{
}

/// Reading goes on below the target, and at the target the batch is sent with all
/// that was held and all that came.
pub proof fn law_reading_goes_on_below_the_target(held: CollectorView, records: Seq<Seq<u8>>)
    requires
        held.pending.len() < held.target,
        0 < records.len(),
        held.pending.len() + records.len() <= held.target,
    ensures
        held.pending.len() + records.len() < held.target <==> held.read(records).1 is Receive,
        held.pending.len() + records.len() == held.target <==> held.read(records).1 is Flush,
        held.read(records).1 is Receive ==> held.read(records).0.pending == held.pending + records,
        held.read(records).1 matches Decision::Flush { records: all } ==> all == held.pending
            + records && held.read(records).0.pending.len() == 0,
        held.read(records).0.target == held.target,
{
}

/// A batch is sent for a reason: in any history, an event adds one batch at most,
/// and one that is short of the target only if the event was a timeout or the
/// queue was closed.
pub proof fn law_short_batch_has_a_reason(
    target: nat,
    events: Seq<CollectEvent>,
    event: CollectEvent,
)
    requires
        target > 0,
        possible(target, events.push(event)),
    ensures
        ({
            let before = run(target, events).batches;
            let after = run(target, events.push(event)).batches;
            &&& after == before || (after.len() == before.len() + 1 && after.drop_last() == before)
            &&& after.len() > before.len() && after.last().len() != target ==> event is Elapsed || (
            event matches CollectEvent::Read { records } && records.len() == 0)
        }),
{
    assert(events.push(event).drop_last() =~= events);
    crate::batch::law_room_for_more(target, events);
    let before = run(target, events);
    let after = run(target, events.push(event));
    if after.batches.len() > before.batches.len() {
        assert(after.batches.drop_last() =~= before.batches);
    }
}

/// Without a timeout, and while the queue is open, every batch is full, and what
/// is held is what full batches leave over.
pub proof fn law_all_batches_full_without_timeouts(target: nat, events: Seq<CollectEvent>)
    requires
        target > 0,
        possible(target, events),
        forall|i: int|
            0 <= i < events.len() ==> (#[trigger] events[i] matches CollectEvent::Read { records }
                && records.len() > 0),
    ensures
        forall|k: int|
            0 <= k < run(target, events).batches.len() ==> (#[trigger] run(
                target,
                events,
            ).batches[k]).len() == target,
        received(events).len() == target * run(target, events).batches.len() + run(
            target,
            events,
        ).now.pending.len(),
        run(target, events).now.pending.len() < target,
        !run(target, events).closed,
    decreases events.len(),
{
    if events.len() > 0 {
        let init = events.drop_last();
        assert forall|i: int| 0 <= i < init.len() implies (
        #[trigger] init[i] matches CollectEvent::Read { records } && records.len() > 0) by {
            assert(init[i] == events[i]);
        }
        law_all_batches_full_without_timeouts(target, init);
        crate::batch::law_room_for_more(target, init);
        let last = events[events.len() - 1];
        let before = run(target, init);
        let after = run(target, events);
        let n = before.batches.len() as int;
        assert(after == before.step(last));
        if let CollectEvent::Read { records } = last {
            let all = before.now.pending + records;
            assert(received(events) == received(init) + records);
            if all.len() >= target {
                assert(after.batches == before.batches.push(all));
                assert(target * (n + 1) == target * n + target) by (nonlinear_arith);
                assert forall|k: int| 0 <= k < after.batches.len() implies (
                #[trigger] after.batches[k]).len() == target by {
                    if k < n {
                        assert(after.batches[k] == before.batches[k]);
                    }
                }
            }
        }
    } else {
        assert(target * 0 == 0) by (nonlinear_arith);
    }
}

} // verus!
