//! The hand-over of batches to senders.
//!
//! Every sender owns a slot. The coordinator puts a batch into the slot of an
//! idle sender and wakes it; the sender takes the batch out, posts it, and
//! reports itself idle again. Closing a slot lets its sender finish what it has
//! and stop.

use vstd::prelude::*;

use crate::batch::BatchBlob;

verus! {

/// What a slot holds.
#[verifier::ext_equal]
pub struct SlotModel<B> {
    pub blob: Option<B>,
    pub closed: bool,
}

impl<B> SlotModel<B> {
    /// A slot as it starts out.
    pub open spec fn empty() -> SlotModel<B> {
        SlotModel { blob: None, closed: false }
    }

    /// The slot can be given a batch: it is open and holds none.
    pub open spec fn vacant(self) -> bool {
        self.blob is None && !self.closed
    }

    /// A sender that is woken has something to do: a batch to post, or to stop.
    pub open spec fn actionable(self) -> bool {
        self.blob is Some || self.closed
    }

    /// The slot with a batch put into it.
    pub open spec fn publish(self, blob: B) -> SlotModel<B> {
        SlotModel { blob: Some(blob), ..self }
    }

    /// The slot, closed.
    pub open spec fn close(self) -> SlotModel<B> {
        SlotModel { closed: true, ..self }
    }

    /// The slot with its batch taken out.
    pub open spec fn take(self) -> SlotModel<B> {
        SlotModel { blob: None, ..self }
    }
}

/// State of one sender's slot.
pub struct SenderSlotState {
    /// Set by the coordinator, taken by exactly one sender.
    pub blob: Option<BatchBlob>,
    /// No more batches will come.
    pub closed: bool,
}

/// What a sender does once it is woken.
pub enum SenderStep {
    /// Post this batch, then look at the slot again.
    Send(BatchBlob),
    /// Stop.
    Stop,
}

/// What a sender does once it has posted a batch.
#[derive(Clone, Copy, PartialEq, Eq, Structural, Debug)]
pub enum AfterSend {
    /// Report itself idle and wait to be woken.
    Announce,
    /// Stop.
    Stop,
}

impl View for SenderSlotState {
    type V = SlotModel<BatchBlob>;

    open spec fn view(&self) -> SlotModel<BatchBlob> {
        SlotModel { blob: self.blob, closed: self.closed }
    }
}

impl Default for SenderSlotState {
    /// An open slot without a batch.
    fn default() -> (r: Self)
        ensures
            r@ == SlotModel::<BatchBlob>::empty(),
    {
        SenderSlotState { blob: None, closed: false }
    }
}

impl SenderSlotState {
    /// Puts a batch into the slot.
    pub fn publish(&mut self, blob: BatchBlob)
        requires
            old(self)@.vacant(),
        ensures
            final(self)@ == old(self)@.publish(blob),
    {
        self.blob = Some(blob);
    }

    /// Closes the slot. A batch that is still in it stays there.
    pub fn close(&mut self)
        ensures
            final(self)@ == old(self)@.close(),
    {
        self.closed = true;
    }

    /// What the sender does when it is woken: it posts the batch if there is
    /// one, even if the slot has been closed since, and stops otherwise.
    pub fn wake(&mut self) -> (r: SenderStep)
        requires
            old(self)@.actionable(),
        ensures
            final(self)@ == old(self)@.take(),
            match old(self)@.blob {
                Some(blob) => r == SenderStep::Send(blob),
                None => r == SenderStep::Stop,
            },
    {
        match self.blob.take() {
            Some(blob) => SenderStep::Send(blob),
            None => SenderStep::Stop,
        }
    }

    /// What the sender does after posting a batch: it stops if the slot has
    /// been closed meanwhile.
    pub fn after_send(&self) -> (r: AfterSend)
        ensures
            r == if self@.closed {
                AfterSend::Stop
            } else {
                AfterSend::Announce
            },
    {
        if self.closed {
            AfterSend::Stop
        } else {
            AfterSend::Announce
        }
    }
}

/// The slots of a pool of `size` senders, all open and without a batch.
pub fn new_slots(size: usize) -> (r: Vec<SenderSlotState>)
    ensures
        r@.len() == size,
        forall|i: int| 0 <= i < size ==> (#[trigger] r@[i])@ == SlotModel::<BatchBlob>::empty(),
{
    let mut slots: Vec<SenderSlotState> = Vec::new();
    let mut i: usize = 0;
    while i < size
        invariant
            i <= size,
            slots@.len() == i,
            forall|j: int|
                0 <= j < i ==> (#[trigger] slots@[j])@ == SlotModel::<BatchBlob>::empty(),
        decreases size - i,
    {
        slots.push(SenderSlotState::default());
        i += 1;
    }
    slots
}

/// Progress of a set of senders that are polled together.
#[verifier::ext_equal]
pub struct PollModel {
    /// The senders that have finished.
    pub done: Seq<bool>,
    /// Some sender of this round is not finished.
    pub pending: bool,
}

impl PollModel {
    /// The set as a round of polling begins.
    pub open spec fn begin(self) -> PollModel {
        PollModel { done: self.done, pending: false }
    }

    /// The set after sender `i` was polled.
    pub open spec fn polled(self, i: int, ready: bool) -> PollModel {
        if ready {
            PollModel { done: self.done.update(i, true), ..self }
        } else {
            PollModel { pending: true, ..self }
        }
    }

    /// The set after the first `upto` senders had their turn in a round in
    /// which sender `i`, if polled, answers `answers[i]`. Finished senders are
    /// passed over.
    pub open spec fn round(self, answers: Seq<bool>, upto: nat) -> PollModel
        decreases upto,
    {
        if upto == 0 {
            self.begin()
        } else {
            let before = self.round(answers, (upto - 1) as nat);
            if self.done[upto - 1] {
                before
            } else {
                before.polled(upto - 1, answers[upto - 1])
            }
        }
    }
}

/// A set of senders that are polled together until all have finished.
pub struct SenderSet {
    done: Vec<bool>,
    pending: bool,
}

impl View for SenderSet {
    type V = PollModel;

    closed spec fn view(&self) -> PollModel {
        PollModel { done: self.done@, pending: self.pending }
    }
}

impl SenderSet {
    /// `size` senders, none of them finished.
    pub fn new(size: usize) -> (r: SenderSet)
        ensures
            r@ == (PollModel { done: Seq::new(size as nat, |i: int| false), pending: false }),
    {
        let mut done: Vec<bool> = Vec::new();
        let mut i: usize = 0;
        while i < size
            invariant
                i <= size,
                done@ =~= Seq::new(i as nat, |j: int| false),
            decreases size - i,
        {
            done.push(false);
            i += 1;
        }
        SenderSet { done, pending: false }
    }

    /// Begins a round of polling.
    pub fn begin(&mut self)
        ensures
            final(self)@ == old(self)@.begin(),
    {
        self.pending = false;
    }

    /// Whether sender `i` is to be polled: a finished one must not be.
    pub fn needs_poll(&self, i: usize) -> (r: bool)
        requires
            i < self@.done.len(),
        ensures
            r == !self@.done[i as int],
    {
        !self.done[i]
    }

    /// Takes in the answer of sender `i`.
    pub fn polled(&mut self, i: usize, ready: bool)
        requires
            i < old(self)@.done.len(),
        ensures
            final(self)@ == old(self)@.polled(i as int, ready),
    {
        if ready {
            self.done.set(i, true);
        } else {
            self.pending = true;
        }
    }

    /// Whether the round found every sender finished.
    pub fn is_ready(&self) -> (r: bool)
        ensures
            r == !self@.pending,
    {
        !self.pending
    }
}

proof fn lemma_round(set: PollModel, answers: Seq<bool>, upto: nat)
    requires
        answers.len() == set.done.len(),
        upto <= set.done.len(),
    ensures
        set.round(answers, upto).done == Seq::new(
            set.done.len(),
            |i: int| set.done[i] || (i < upto && answers[i]),
        ),
        set.round(answers, upto).pending <==> exists|i: int|
            0 <= i < upto && !set.done[i] && !answers[i],
    decreases upto,
{
    let after = set.round(answers, upto);
    if upto > 0 {
        let before = set.round(answers, (upto - 1) as nat);
        lemma_round(set, answers, (upto - 1) as nat);
        if !set.done[upto - 1] && !answers[upto - 1] {
            assert(after.pending);
        } else {
            assert(after.pending == before.pending);
        }
    }
    assert(after.done =~= Seq::new(
        set.done.len(),
        |i: int| set.done[i] || (i < upto && answers[i]),
    ));
}

/// A full round marks exactly the senders that answered that they are
/// finished, on top of those that were, and is ready exactly if that makes all
/// of them.
pub proof fn law_round_ready_iff_all_done(set: PollModel, answers: Seq<bool>)
    requires
        answers.len() == set.done.len(),
    ensures
        forall|i: int|
            0 <= i < set.done.len() ==> (#[trigger] set.round(answers, set.done.len()).done[i] == (
            set.done[i] || answers[i])),
        !set.round(answers, set.done.len()).pending <==> forall|i: int|
            0 <= i < set.done.len() ==> #[trigger] set.round(answers, set.done.len()).done[i],
{
    lemma_round(set, answers, set.done.len());
    let after = set.round(answers, set.done.len());
    if after.pending {
        let i = choose|i: int| 0 <= i < set.done.len() && !set.done[i] && !answers[i];
        assert(!after.done[i]);
    } else {
        assert forall|i: int| 0 <= i < set.done.len() implies #[trigger] after.done[i] by {
            assert(set.done[i] || answers[i]);
        }
    }
}

} // verus!
