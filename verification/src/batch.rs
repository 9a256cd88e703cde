//! Collecting events into batches.
//!
//! A batch is a zstd frame over JSON lines: each event's JSON followed by a
//! newline. The [`Collector`] decides when to wait for more events, when to send
//! what there is, and when to stop; the caller owns the event queue and the
//! timer and reports what they did.

use vstd::prelude::*;

use crate::outside::zstd_append;
#[allow(unused_imports)]
use crate::outside::{buffer_content, bytes_content, zstd_text};

verus! {

/// Ends each record in the text of a batch.
pub const NEWLINE: u8 = 10;

/// Capacity of the buffer that bodies are written to, to begin with.
pub const BODY_CAPACITY: usize = 2048;

/// A batch of events, ready to post.
pub struct BatchBlob {
    /// The records, as one zstd frame.
    pub body: bytes::Bytes,
    /// How many events the body holds.
    pub evts_count: usize,
}

/// The text of a batch: every record followed by a newline.
pub open spec fn frame(records: Seq<Seq<u8>>) -> Seq<u8>
    decreases records.len(),
{
    if records.len() == 0 {
        Seq::empty()
    } else {
        frame(records.drop_last()) + records.last().push(NEWLINE)
    }
}

/// The contents of a list of byte vectors.
pub open spec fn contents(records: Seq<Vec<u8>>) -> Seq<Seq<u8>> {
    records.map_values(|r: Vec<u8>| r@)
}

impl BatchBlob {
    /// The body decompresses to exactly these records, and the count is theirs.
    pub open spec fn carries(self, records: Seq<Seq<u8>>) -> bool {
        &&& self.evts_count == records.len()
        &&& zstd_text(bytes_content(self.body)) == Some(frame(records))
    }
}

/// What a collector holds: the records of the batch that is being collected.
#[verifier::ext_equal]
pub struct CollectorView {
    pub target: nat,
    pub pending: Seq<Seq<u8>>,
}

/// What a collector decides.
#[verifier::ext_equal]
pub enum Decision {
    /// Wait for up to `limit` more events.
    Receive { limit: nat, restart_timer: bool },
    /// Send these records as one batch.
    Flush { records: Seq<Seq<u8>> },
    /// Stop: the queue is closed and nothing is left to send.
    Close,
}

impl CollectorView {
    /// A collector that holds nothing.
    pub open spec fn empty(target: nat) -> CollectorView {
        CollectorView { target, pending: Seq::empty() }
    }

    /// A batch is sent as soon as it is full, so what is held is always short
    /// of the target.
    pub open spec fn wf(self) -> bool {
        self.pending.len() < self.target
    }

    /// How many more events the batch can take.
    pub open spec fn room(self) -> nat {
        (self.target - self.pending.len()) as nat
    }

    /// The queue handed out `records`. It hands out none only when it is closed
    /// and drained.
    pub open spec fn read(self, records: Seq<Seq<u8>>) -> (CollectorView, Decision) {
        let all = CollectorView { target: self.target, pending: self.pending + records };
        if records.len() == 0 {
            if self.pending.len() == 0 {
                (self, Decision::Close)
            } else {
                (CollectorView::empty(self.target), Decision::Flush { records: self.pending })
            }
        } else if all.pending.len() >= self.target {
            (CollectorView::empty(self.target), Decision::Flush { records: all.pending })
        } else {
            (all, Decision::Receive { limit: all.room(), restart_timer: false })
        }
    }

    /// The collect timeout ran out.
    pub open spec fn elapsed(self) -> (CollectorView, Decision) {
        if self.pending.len() == 0 {
            (self, Decision::Receive { limit: self.target, restart_timer: true })
        } else {
            (CollectorView::empty(self.target), Decision::Flush { records: self.pending })
        }
    }
}

/// What the caller is to do next.
pub enum CollectAction {
    /// Receive up to `limit` events from the queue, under a collect timeout
    /// that starts anew if `restart_timer`, and report either the events or that
    /// the timeout ran out.
    Receive { limit: usize, restart_timer: bool },
    /// Hand this batch to a sender, then begin the next one.
    Flush(BatchBlob),
    /// Close the senders and stop.
    Close,
}

impl CollectAction {
    /// The action carries out the decision.
    pub open spec fn enacts(self, decision: Decision) -> bool {
        match decision {
            Decision::Receive { limit, restart_timer } => self == (CollectAction::Receive {
                limit: limit as usize,
                restart_timer,
            }) && limit <= usize::MAX,
            Decision::Flush { records } => self matches CollectAction::Flush(blob) && blob.carries(
                records,
            ),
            Decision::Close => self is Close,
        }
    }
}

/// Collects records into batches of at most `collect_target`.
pub struct Collector {
    collect_target: usize,
    evts_count: usize,
    text: Vec<u8>,
    body: bytes::BytesMut,
    pending: Ghost<Seq<Seq<u8>>>,
}

impl View for Collector {
    type V = CollectorView;

    closed spec fn view(&self) -> CollectorView {
        CollectorView { target: self.collect_target as nat, pending: self.pending@ }
    }
}

impl Collector {
    /// The counters and buffers agree with the records that are held.
    pub closed spec fn consistent(self) -> bool {
        &&& self.evts_count == self.pending@.len()
        &&& self.text@ == frame(self.pending@)
        &&& buffer_content(self.body) == Seq::<u8>::empty()
    }

    /// What is held is short of the collect target.
    pub open spec fn wf(self) -> bool {
        &&& self.consistent()
        &&& self@.wf()
        &&& self@.target <= usize::MAX
    }

    /// A collector that holds nothing. With a target of zero no batch would
    /// ever be complete.
    pub fn new(collect_target: usize) -> (r: Collector)
        requires
            collect_target > 0,
        ensures
            r.wf(),
            r@ == CollectorView::empty(collect_target as nat),
    {
        Collector {
            collect_target,
            evts_count: 0,
            text: Vec::new(),
            body: bytes::BytesMut::with_capacity(BODY_CAPACITY),
            pending: Ghost(Seq::empty()),
        }
    }

    /// How a batch begins: receive as much as it can take, under a fresh
    /// timeout.
    pub fn begin(&self) -> (r: CollectAction)
        requires
            self.wf(),
        ensures
            r.enacts(
                Decision::Receive { limit: self@.room(), restart_timer: self@.pending.len() == 0 },
            ),
    {
        CollectAction::Receive {
            limit: self.collect_target - self.evts_count,
            restart_timer: self.evts_count == 0,
        }
    }

    /// Takes in what the queue handed out. No records at all means that the
    /// queue is closed and drained.
    pub fn on_read(&mut self, records: &Vec<Vec<u8>>) -> (r: CollectAction)
        requires
            old(self).wf(),
            records@.len() <= old(self)@.room(),
        ensures
            final(self).wf(),
            final(self)@ == old(self)@.read(contents(records@)).0,
            r.enacts(old(self)@.read(contents(records@)).1),
            0 < records@.len() < old(self)@.target - old(self)@.pending.len() ==> (
            r matches CollectAction::Receive { limit, .. } && limit + records@.len()
                + old(self)@.pending.len() == old(self)@.target),
    {
        if records.len() == 0 {
            assert(contents(records@).len() == 0);
            if self.evts_count == 0 {
                return CollectAction::Close;
            }
            return self.flush();
        }
        let ghost before = self.pending@;
        let mut i: usize = 0;
        while i < records.len()
            invariant
                i <= records@.len(),
                self.collect_target == old(self).collect_target,
                self.evts_count == old(self).evts_count,
                self.body == old(self).body,
                self.pending@ == before + contents(records@).take(i as int),
                self.text@ == frame(self.pending@),
            decreases records@.len() - i,
        {
            let ghost held = self.pending@;
            self.text.extend_from_slice(records[i].as_slice());
            self.text.push(NEWLINE);
            self.pending = Ghost(held.push(records@[i as int]@));
            i += 1;
            assert(self.pending@.drop_last() =~= held);
            assert(self.text@ =~= frame(held) + records@[i - 1]@.push(NEWLINE));
            assert(self.pending@ =~= before + contents(records@).take(i as int));
        }
        assert(contents(records@).take(i as int) =~= contents(records@));
        self.evts_count = self.evts_count + records.len();
        if self.evts_count == self.collect_target {
            return self.flush();
        }
        CollectAction::Receive {
            limit: self.collect_target - self.evts_count,
            restart_timer: false,
        }
    }

    /// The collect timeout ran out: sends what there is, or waits again where
    /// there is nothing.
    pub fn on_elapsed(&mut self) -> (r: CollectAction)
        requires
            old(self).wf(),
        ensures
            final(self).wf(),
            final(self)@ == old(self)@.elapsed().0,
            r.enacts(old(self)@.elapsed().1),
    {
        if self.evts_count == 0 {
            CollectAction::Receive { limit: self.collect_target, restart_timer: true }
        } else {
            self.flush()
        }
    }

    /// Turns the records that are held into a batch and starts over.
    fn flush(&mut self) -> (r: CollectAction)
        requires
            0 < old(self).evts_count <= old(self).collect_target,
            old(self).evts_count == old(self).pending@.len(),
            old(self).text@ == frame(old(self).pending@),
            buffer_content(old(self).body) == Seq::<u8>::empty(),
        ensures
            final(self).wf(),
            final(self)@ == CollectorView::empty(old(self).collect_target as nat),
            r.enacts(Decision::Flush { records: old(self).pending@ }),
    {
        let ghost records = self.pending@;
        zstd_append(self.text.as_slice(), &mut self.body);
        assert(buffer_content(self.body).skip(0) =~= buffer_content(self.body));
        let body = self.body.split().freeze();
        let blob = BatchBlob { body, evts_count: self.evts_count };
        assert(blob.carries(records));
        self.evts_count = 0;
        self.text.clear();
        self.pending = Ghost(Seq::empty());
        CollectAction::Flush(blob)
    }
}

/// Something that happens to a collector.
pub enum CollectEvent {
    /// The queue handed out records; none if it is closed and drained.
    Read { records: Seq<Seq<u8>> },
    /// The collect timeout ran out.
    Elapsed,
}

/// A collector's history: what it holds, the batches it sent, in order, and
/// whether it stopped.
#[verifier::ext_equal]
pub struct Run {
    pub now: CollectorView,
    pub batches: Seq<Seq<Seq<u8>>>,
    pub closed: bool,
}

impl Run {
    /// A run at its start.
    pub open spec fn start(target: nat) -> Run {
        Run { now: CollectorView::empty(target), batches: Seq::empty(), closed: false }
    }

    /// What the collector decides about the event, and what it holds then.
    pub open spec fn respond(self, event: CollectEvent) -> (CollectorView, Decision) {
        match event {
            CollectEvent::Read { records } => self.now.read(records),
            CollectEvent::Elapsed => self.now.elapsed(),
        }
    }

    /// The run after one more event.
    pub open spec fn step(self, event: CollectEvent) -> Run {
        let (next, decision) = self.respond(event);
        match decision {
            Decision::Receive { .. } => Run { now: next, ..self },
            Decision::Flush { records } => Run {
                now: next,
                batches: self.batches.push(records),
                ..self
            },
            Decision::Close => Run { now: next, closed: true, ..self },
        }
    }
}

/// The run that these events lead to.
pub open spec fn run(target: nat, events: Seq<CollectEvent>) -> Run
    decreases events.len(),
{
    if events.len() == 0 {
        Run::start(target)
    } else {
        run(target, events.drop_last()).step(events.last())
    }
}

/// The events are possible: nothing happens to a collector that stopped, and
/// the queue never hands out more than was asked for.
pub open spec fn possible(target: nat, events: Seq<CollectEvent>) -> bool
    decreases events.len(),
{
    events.len() > 0 ==> {
        let before = run(target, events.drop_last());
        &&& possible(target, events.drop_last())
        &&& !before.closed
        &&& events.last() matches CollectEvent::Read { records } ==> records.len()
            <= before.now.room()
    }
}

/// All records that the queue handed out, in order.
pub open spec fn received(events: Seq<CollectEvent>) -> Seq<Seq<u8>>
    decreases events.len(),
{
    if events.len() == 0 {
        Seq::empty()
    } else {
        match events.last() {
            CollectEvent::Read { records } => received(events.drop_last()) + records,
            CollectEvent::Elapsed => received(events.drop_last()),
        }
    }
}

/// All records in the batches, in order.
pub open spec fn sent(batches: Seq<Seq<Seq<u8>>>) -> Seq<Seq<u8>>
    decreases batches.len(),
{
    if batches.len() == 0 {
        Seq::empty()
    } else {
        sent(batches.drop_last()) + batches.last()
    }
}

/// A collector always has room for at least one more event.
pub proof fn law_room_for_more(target: nat, events: Seq<CollectEvent>)
    requires
        target > 0,
        possible(target, events),
    ensures
        run(target, events).now.target == target,
        run(target, events).now.wf(),
    decreases events.len(),
{
    if events.len() > 0 {
        law_room_for_more(target, events.drop_last());
    }
}

/// No event is lost, duplicated or moved: the batches sent so far, followed by
/// what is held, are exactly what the queue handed out, in order.
pub proof fn law_nothing_lost(target: nat, events: Seq<CollectEvent>)
    requires
        target > 0,
        possible(target, events),
    ensures
        sent(run(target, events).batches) + run(target, events).now.pending == received(events),
    decreases events.len(),
{
    if events.len() > 0 {
        let before = run(target, events.drop_last());
        let after = run(target, events);
        law_nothing_lost(target, events.drop_last());
        assert(before.batches.push(before.now.pending).drop_last() =~= before.batches);
        if let CollectEvent::Read { records } = events.last() {
            let all = before.now.pending + records;
            assert(before.batches.push(all).drop_last() =~= before.batches);
            assert(sent(before.batches) + all =~= received(events.drop_last()) + records);
        }
        assert(sent(after.batches) + after.now.pending =~= received(events));
    }
}

/// Every batch holds at least one event and at most the collect target.
pub proof fn law_batch_sizes(target: nat, events: Seq<CollectEvent>)
    requires
        target > 0,
        possible(target, events),
    ensures
        forall|i: int|
            0 <= i < run(target, events).batches.len() ==> 1 <= (
            #[trigger] run(target, events).batches[i]).len() <= target,
    decreases events.len(),
{
    if events.len() > 0 {
        law_batch_sizes(target, events.drop_last());
        law_room_for_more(target, events.drop_last());
    }
}

/// A collector that stopped has sent everything that it ever received.
pub proof fn law_stopped_means_drained(target: nat, events: Seq<CollectEvent>)
    requires
        target > 0,
        possible(target, events),
        run(target, events).closed,
    ensures
        sent(run(target, events).batches) == received(events),
    decreases events.len(),
{
    law_nothing_lost(target, events);
    assert(events.len() > 0);
    let before = run(target, events.drop_last());
    assert(before.now.pending.len() == 0);
    assert(run(target, events).now.pending =~= Seq::empty());
    assert(sent(run(target, events).batches) + Seq::<Seq<u8>>::empty() =~= sent(
        run(target, events).batches,
    ));
}

/// Shutdown flushes a partial batch first: when the queue turns out to be
/// closed while records are held, they are sent as a batch of their own, and
/// only the next look at the queue stops the collector.
pub proof fn law_shutdown_flushes_partial_batch(held: CollectorView)
    requires
        held.wf(),
        held.pending.len() > 0,
    ensures
        held.read(Seq::empty()).1 == (Decision::Flush { records: held.pending }),
        held.read(Seq::empty()).0.read(Seq::empty()).1 == Decision::Close,
{
}

/// A timeout never sends an empty batch and never drops what is held.
pub proof fn law_timeout_sends_what_there_is(held: CollectorView)
    requires
        held.wf(),
    ensures
        held.pending.len() > 0 ==> held.elapsed().1 == (Decision::Flush { records: held.pending }),
        held.pending.len() == 0 ==> held.elapsed() == (
            held,
            Decision::Receive { limit: held.target, restart_timer: true },
        ),
{
}

/// Where the first newline stands, or the length of the text if it has none.
pub open spec fn line_end(text: Seq<u8>) -> nat
    decreases text.len(),
{
    if text.len() == 0 || text[0] == NEWLINE {
        0
    } else {
        1 + line_end(text.skip(1))
    }
}

/// The lines of a text, without their newlines; what follows the last newline
/// is not a line.
pub open spec fn lines(text: Seq<u8>) -> Seq<Seq<u8>>
    decreases text.len(),
{
    if line_end(text) >= text.len() {
        Seq::empty()
    } else {
        seq![text.take(line_end(text) as int)] + lines(text.skip(line_end(text) as int + 1))
    }
}

proof fn lemma_line_end(record: Seq<u8>, rest: Seq<u8>)
    requires
        !record.contains(NEWLINE),
    ensures
        line_end(record.push(NEWLINE) + rest) == record.len(),
    decreases record.len(),
{
    let text = record.push(NEWLINE) + rest;
    if record.len() > 0 {
        assert(record.contains(record[0]));
        let tail = record.skip(1);
        assert forall|i: int| 0 <= i < tail.len() implies tail[i] != NEWLINE by {
            assert(record.contains(record[i + 1]));
        }
        assert(text.skip(1) =~= tail.push(NEWLINE) + rest);
        lemma_line_end(tail, rest);
    }
}

proof fn lemma_frame_front(records: Seq<Seq<u8>>)
    requires
        records.len() > 0,
    ensures
        frame(records) == records[0].push(NEWLINE) + frame(records.skip(1)),
    decreases records.len(),
{
    let tail = records.skip(1);
    if records.len() == 1 {
        assert(records.drop_last() =~= Seq::empty());
        assert(tail =~= Seq::empty());
        assert(frame(records) =~= records[0].push(NEWLINE) + frame(tail));
    } else {
        lemma_frame_front(records.drop_last());
        assert(records.drop_last().skip(1) =~= tail.drop_last());
        assert(frame(records) =~= records[0].push(NEWLINE) + frame(tail));
    }
}

/// The lines of a batch's text are its records, provided that no record
/// contains a newline.
pub proof fn law_lines_are_records(records: Seq<Seq<u8>>)
    requires
        plain(records),
    ensures
        lines(frame(records)) == records,
    decreases records.len(),
{
    if records.len() == 0 {
        assert(lines(frame(records)) =~= records);
    } else {
        let tail = records.skip(1);
        let text = frame(records);
        lemma_frame_front(records);
        lemma_line_end(records[0], frame(tail));
        assert forall|i: int| 0 <= i < tail.len() implies !(#[trigger] tail[i]).contains(
            NEWLINE,
        ) by {
            assert(tail[i] == records[i + 1]);
        }
        law_lines_are_records(tail);
        assert(text.take(records[0].len() as int) =~= records[0]);
        assert(text.skip(records[0].len() as int + 1) =~= frame(tail));
        assert(lines(text) =~= records);
    }
}

/// The server reads back what was collected: a body decompresses to text whose
/// lines are the batch's records, in order.
pub proof fn law_body_reads_back(blob: BatchBlob, records: Seq<Seq<u8>>)
    requires
        blob.carries(records),
        plain(records),
    ensures
        zstd_text(bytes_content(blob.body)) matches Some(text) && lines(text) == records,
        blob.evts_count == records.len(),
{
    law_lines_are_records(records);
}

/// No record contains a newline.
pub open spec fn plain(records: Seq<Seq<u8>>) -> bool {
    forall|i: int| 0 <= i < records.len() ==> !(#[trigger] records[i]).contains(NEWLINE)
}

/// The blobs carry these batches, one each.
pub open spec fn all_carried(blobs: Seq<BatchBlob>, batches: Seq<Seq<Seq<u8>>>) -> bool {
    &&& blobs.len() == batches.len()
    &&& forall|k: int| 0 <= k < blobs.len() ==> (#[trigger] blobs[k]).carries(batches[k])
}

/// What a server reads that is posted these blobs: the lines of their
/// decompressed bodies, in order.
pub open spec fn read_back(blobs: Seq<BatchBlob>) -> Seq<Seq<u8>>
    decreases blobs.len(),
{
    if blobs.len() == 0 {
        Seq::empty()
    } else {
        read_back(blobs.drop_last()) + lines(zstd_text(bytes_content(blobs.last().body)).unwrap())
    }
}

/// A server that is posted all batches reads all records, in order, provided
/// that no record contains a newline.
pub proof fn law_batches_read_back(blobs: Seq<BatchBlob>, batches: Seq<Seq<Seq<u8>>>)
    requires
        all_carried(blobs, batches),
        plain(sent(batches)),
    ensures
        read_back(blobs) == sent(batches),
    decreases blobs.len(),
{
    if blobs.len() > 0 {
        let init = sent(batches.drop_last());
        let last = batches.last();
        assert forall|i: int| 0 <= i < init.len() implies !(#[trigger] init[i]).contains(
            NEWLINE,
        ) by {
            assert(sent(batches)[i] == init[i]);
        }
        assert forall|i: int| 0 <= i < last.len() implies !(#[trigger] last[i]).contains(
            NEWLINE,
        ) by {
            assert(sent(batches)[init.len() + i] == last[i]);
        }
        assert(blobs[blobs.len() - 1].carries(batches[blobs.len() - 1]));
        assert(all_carried(blobs.drop_last(), batches.drop_last())) by {
            assert forall|k: int| 0 <= k < blobs.len() - 1 implies (
            #[trigger] blobs.drop_last()[k]).carries(batches.drop_last()[k]) by {
                assert(blobs[k].carries(batches[k]));
            }
        }
        law_batches_read_back(blobs.drop_last(), batches.drop_last());
        law_body_reads_back(blobs.last(), last);
    }
}

} // verus!
