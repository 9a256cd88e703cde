//! The coordinator and the senders, as state machines.
//!
//! Each task is asked for its next action, which the caller performs, and is
//! then told how that went.

use vstd::prelude::*;

use crate::batch::{BatchBlob, CollectAction, Collector};
#[allow(unused_imports)]
use crate::batch::{contents, CollectorView, Decision};
#[allow(unused_imports)]
use crate::slot::SlotModel;
use crate::slot::{AfterSend, SenderSlotState, SenderStep};

verus! {

/// Where a sender stands.
pub enum SenderPhase<B> {
    /// About to report itself idle.
    Announcing,
    /// Waiting for its wake-up permit.
    Waiting,
    /// Woken, about to look into its slot.
    Woken,
    /// Posting a batch, retries included.
    Sending { blob: B },
    /// Done posting, about to see whether its slot is closed.
    Sent,
    /// Stopped for good.
    Stopped,
}

impl<B> SenderPhase<B> {
    /// Where a woken sender goes that finds its slot like this.
    pub open spec fn looked(slot: SlotModel<B>) -> SenderPhase<B> {
        match slot.blob {
            Some(blob) => SenderPhase::Sending { blob },
            None => SenderPhase::Stopped,
        }
    }

    /// Where a sender that is done posting goes if it finds its slot like this.
    pub open spec fn checked(slot: SlotModel<B>) -> SenderPhase<B> {
        if slot.closed {
            SenderPhase::Stopped
        } else {
            SenderPhase::Announcing
        }
    }
}

/// Where the coordinator of a pool stands.
pub enum CoordPhase<B> {
    /// Collecting events.
    Collecting,
    /// Has a batch, waiting for an idle sender.
    Holding { blob: B },
    /// Found an idle sender, about to put the batch into its slot.
    Claimed { id: int, blob: B },
    /// Put the batch there, about to wake the sender.
    Notifying { id: int },
    /// Shutting down, about to close slot `next`.
    Closing { next: int },
    /// Closed slot `next`, about to wake its sender.
    NotifyingClosed { next: int },
    /// Stopped for good.
    Stopped,
}

impl<B> CoordPhase<B> {
    /// The coordinator has an idle sender for its batch.
    pub open spec fn claimed(self, id: int) -> CoordPhase<B> {
        CoordPhase::Claimed { id, blob: self->Holding_blob }
    }

    /// The batch is in the sender's slot.
    pub open spec fn published(self) -> CoordPhase<B> {
        CoordPhase::Notifying { id: self->Claimed_id }
    }

    /// The slot is closed.
    pub open spec fn shut(self) -> CoordPhase<B> {
        CoordPhase::NotifyingClosed { next: self->Closing_next }
    }

    /// Ids are those of senders in a pool of `size`.
    pub open spec fn within(self, size: int) -> bool {
        match self {
            CoordPhase::Claimed { id, .. } => 0 <= id < size,
            CoordPhase::Notifying { id } => 0 <= id < size,
            CoordPhase::Closing { next } => 0 <= next < size,
            CoordPhase::NotifyingClosed { next } => 0 <= next < size,
            _ => true,
        }
    }

    /// The sender has been woken, in a pool of `size`.
    pub open spec fn notified(self, size: int) -> CoordPhase<B> {
        match self {
            CoordPhase::NotifyingClosed { next } => if next + 1 < size {
                CoordPhase::Closing { next: next + 1 }
            } else {
                CoordPhase::Stopped
            },
            _ => CoordPhase::Collecting,
        }
    }
}

/// What a sender is to do next.
#[derive(Clone, Copy, PartialEq, Eq, Structural, Debug)]
pub enum SenderAction {
    /// Report itself idle, then say [`SenderTask::announced`], or
    /// [`SenderTask::forsaken`] if nobody takes reports any more.
    Announce,
    /// Wait for the wake-up permit, then say [`SenderTask::woken`].
    AwaitWake,
    /// Look into the slot with [`SenderTask::look`].
    Look,
    /// Post the batch, then say [`SenderTask::posted`].
    Post,
    /// Look at the slot with [`SenderTask::check`].
    Check,
    /// Stop.
    Stop,
}

/// A sender.
pub struct SenderTask {
    pub phase: SenderPhase<BatchBlob>,
}

impl SenderTask {
    /// A sender that is about to report itself idle for the first time.
    pub fn new() -> (r: SenderTask)
        ensures
            r.phase is Announcing,
    {
        SenderTask { phase: SenderPhase::Announcing }
    }

    /// What the sender is to do next.
    pub fn action(&self) -> (r: SenderAction)
        ensures
            r == match self.phase {
                SenderPhase::Announcing => SenderAction::Announce,
                SenderPhase::Waiting => SenderAction::AwaitWake,
                SenderPhase::Woken => SenderAction::Look,
                SenderPhase::Sending { .. } => SenderAction::Post,
                SenderPhase::Sent => SenderAction::Check,
                SenderPhase::Stopped => SenderAction::Stop,
            },
    {
        match self.phase {
            SenderPhase::Announcing => SenderAction::Announce,
            SenderPhase::Waiting => SenderAction::AwaitWake,
            SenderPhase::Woken => SenderAction::Look,
            SenderPhase::Sending { .. } => SenderAction::Post,
            SenderPhase::Sent => SenderAction::Check,
            SenderPhase::Stopped => SenderAction::Stop,
        }
    }

    /// The batch that is being posted.
    pub fn batch(&self) -> (r: Option<&BatchBlob>)
        ensures
            match self.phase {
                SenderPhase::Sending { blob } => r == Some(&blob),
                _ => r is None,
            },
    {
        match &self.phase {
            SenderPhase::Sending { blob } => Some(blob),
            _ => None,
        }
    }

    /// The sender has reported itself idle.
    pub fn announced(&mut self)
        requires
            old(self).phase is Announcing,
        ensures
            final(self).phase is Waiting,
    {
        self.phase = SenderPhase::Waiting;
    }

    /// Nobody takes the report that the sender is idle: it stops at once, without
    /// a look at its slot.
    pub fn forsaken(&mut self)
        requires
            old(self).phase is Announcing,
        ensures
            final(self).phase is Stopped,
    {
        self.phase = SenderPhase::Stopped;
    }

    /// The sender has been woken.
    pub fn woken(&mut self)
        requires
            old(self).phase is Waiting,
        ensures
            final(self).phase is Woken,
    {
        self.phase = SenderPhase::Woken;
    }

    /// Looks into the slot: takes the batch out, or stops.
    pub fn look(&mut self, slot: &mut SenderSlotState)
        requires
            old(self).phase is Woken,
            old(slot)@.actionable(),
        ensures
            final(slot)@ == old(slot)@.take(),
            final(self).phase == SenderPhase::looked(old(slot)@),
    {
        self.phase = match slot.wake() {
            SenderStep::Send(blob) => SenderPhase::Sending { blob },
            SenderStep::Stop => SenderPhase::Stopped,
        };
    }

    /// The sender is done with its batch.
    pub fn posted(&mut self)
        requires
            old(self).phase is Sending,
        ensures
            final(self).phase is Sent,
    {
        self.phase = SenderPhase::Sent;
    }

    /// Looks at the slot after posting: stops if it is closed.
    pub fn check(&mut self, slot: &SenderSlotState)
        requires
            old(self).phase is Sent,
        ensures
            final(self).phase == SenderPhase::checked(slot@),
    {
        self.phase = match slot.after_send() {
            AfterSend::Announce => SenderPhase::Announcing,
            AfterSend::Stop => SenderPhase::Stopped,
        };
    }
}

/// What the coordinator is to do next.
#[derive(Clone, Copy, PartialEq, Eq, Structural, Debug)]
pub enum CoordAction {
    /// Receive up to `limit` events from the queue, under a collect timeout
    /// that starts anew if `restart_timer`, and report them with
    /// [`Coordinator::on_read`], or the timeout with
    /// [`Coordinator::on_elapsed`].
    Receive { limit: usize, restart_timer: bool },
    /// Wait for an idle sender, then say [`Coordinator::claimed`].
    AwaitIdle,
    /// Fill the slot of sender `id` with [`Coordinator::publish`].
    Fill { id: usize },
    /// Wake sender `id`, then say [`Coordinator::notified`].
    Wake { id: usize },
    /// Close the slot of sender `id` with [`Coordinator::close`].
    Close { id: usize },
    /// Stop.
    Stop,
}

/// The coordinator's phase, as it is stored.
enum CoordState {
    Collecting,
    Holding { blob: BatchBlob },
    Claimed { id: usize, blob: BatchBlob },
    Notifying { id: usize },
    Closing { next: usize },
    NotifyingClosed { next: usize },
    Stopped,
}

/// The coordinator of a pool.
pub struct Coordinator {
    collector: Collector,
    pool_size: usize,
    state: CoordState,
}

impl Coordinator {
    /// Where the coordinator stands.
    pub closed spec fn phase(self) -> CoordPhase<BatchBlob> {
        match self.state {
            CoordState::Collecting => CoordPhase::Collecting,
            CoordState::Holding { blob } => CoordPhase::Holding { blob },
            CoordState::Claimed { id, blob } => CoordPhase::Claimed { id: id as int, blob },
            CoordState::Notifying { id } => CoordPhase::Notifying { id: id as int },
            CoordState::Closing { next } => CoordPhase::Closing { next: next as int },
            CoordState::NotifyingClosed { next } => CoordPhase::NotifyingClosed {
                next: next as int,
            },
            CoordState::Stopped => CoordPhase::Stopped,
        }
    }

    /// What has been collected for the batch to come.
    pub closed spec fn held(self) -> CollectorView {
        self.collector@
    }

    /// How many senders there are.
    pub closed spec fn size(self) -> int {
        self.pool_size as int
    }

    /// The collector's counters and buffers agree with what it holds.
    pub closed spec fn consistent(self) -> bool {
        self.collector.consistent()
    }

    /// What is held is short of the collect target, and ids are those of senders
    /// in the pool.
    pub open spec fn wf(self) -> bool {
        &&& self.consistent()
        &&& self.held().wf()
        &&& self.held().target <= usize::MAX
        &&& 0 < self.size() <= usize::MAX
        &&& self.phase().within(self.size())
    }

    /// The same pool, and the same events held.
    pub open spec fn keeps(self, before: Coordinator) -> bool {
        self.size() == before.size() && self.held() == before.held()
    }

    /// What is to follow a decision about the events that came, or did not.
    pub open spec fn enacts(self, before: Coordinator, decided: (CollectorView, Decision)) -> bool {
        &&& self.size() == before.size()
        &&& self.held() == decided.0
        &&& match decided.1 {
            Decision::Receive { .. } => self.phase() is Collecting,
            Decision::Flush { records } => self.phase() matches CoordPhase::Holding { blob }
                && blob.carries(records),
            Decision::Close => self.phase() == (CoordPhase::<BatchBlob>::Closing { next: 0 }),
        }
    }

    /// The coordinator of a pool of `pool_size`, with no events yet.
    pub fn new(collect_target: usize, pool_size: usize) -> (r: Coordinator)
        requires
            collect_target > 0,
            pool_size > 0,
        ensures
            r.wf(),
            r.phase() is Collecting,
            r.held() == CollectorView::empty(collect_target as nat),
            r.size() == pool_size,
    {
        Coordinator {
            collector: Collector::new(collect_target),
            pool_size,
            state: CoordState::Collecting,
        }
    }

    /// What the coordinator is to do next.
    pub fn action(&self) -> (r: CoordAction)
        requires
            self.wf(),
        ensures
            match self.phase() {
                CoordPhase::Collecting => r == (CoordAction::Receive {
                    limit: self.held().room() as usize,
                    restart_timer: self.held().pending.len() == 0,
                }) && self.held().room() <= usize::MAX,
                CoordPhase::Holding { .. } => r == CoordAction::AwaitIdle,
                CoordPhase::Claimed { id, .. } => r == (CoordAction::Fill { id: id as usize }),
                CoordPhase::Notifying { id } => r == (CoordAction::Wake { id: id as usize }),
                CoordPhase::Closing { next } => r == (CoordAction::Close { id: next as usize }),
                CoordPhase::NotifyingClosed { next } => r == (CoordAction::Wake {
                    id: next as usize,
                }),
                CoordPhase::Stopped => r == CoordAction::Stop,
            },
            match r {
                CoordAction::Fill { id } => id < self.size(),
                CoordAction::Wake { id } => id < self.size(),
                CoordAction::Close { id } => id < self.size(),
                _ => true,
            },
    {
        match &self.state {
            CoordState::Collecting => match self.collector.begin() {
                CollectAction::Receive { limit, restart_timer } => CoordAction::Receive {
                    limit,
                    restart_timer,
                },
                _ => CoordAction::Stop,
            },
            CoordState::Holding { .. } => CoordAction::AwaitIdle,
            CoordState::Claimed { id, .. } => CoordAction::Fill { id: *id },
            CoordState::Notifying { id } => CoordAction::Wake { id: *id },
            CoordState::Closing { next } => CoordAction::Close { id: *next },
            CoordState::NotifyingClosed { next } => CoordAction::Wake { id: *next },
            CoordState::Stopped => CoordAction::Stop,
        }
    }

    /// The queue handed out events, whose records are these; none if it is
    /// closed and drained.
    pub fn on_read(&mut self, records: &Vec<Vec<u8>>)
        requires
            old(self).wf(),
            old(self).phase() is Collecting,
            records@.len() <= old(self).held().room(),
        ensures
            final(self).wf(),
            final(self).enacts(*old(self), old(self).held().read(contents(records@))),
    {
        let action = self.collector.on_read(records);
        self.follow(action);
    }

    /// The collect timeout ran out.
    pub fn on_elapsed(&mut self)
        requires
            old(self).wf(),
            old(self).phase() is Collecting,
        ensures
            final(self).wf(),
            final(self).enacts(*old(self), old(self).held().elapsed()),
    {
        let action = self.collector.on_elapsed();
        self.follow(action);
    }

    /// Moves on as the collector says.
    fn follow(&mut self, action: CollectAction)
        requires
            old(self).wf(),
            old(self).phase() is Collecting,
        ensures
            final(self).wf(),
            final(self).keeps(*old(self)),
            match action {
                CollectAction::Receive { .. } => final(self).phase() is Collecting,
                CollectAction::Flush(blob) => final(self).phase() == (CoordPhase::Holding { blob }),
                CollectAction::Close => final(self).phase() == (CoordPhase::<BatchBlob>::Closing {
                    next: 0,
                }),
            },
    {
        match action {
            CollectAction::Receive { .. } => {},
            CollectAction::Flush(blob) => {
                self.state = CoordState::Holding { blob };
            },
            CollectAction::Close => {
                self.state = CoordState::Closing { next: 0 };
            },
        }
    }

    /// Sender `id` is idle and takes the batch.
    pub fn claimed(&mut self, id: usize)
        requires
            old(self).wf(),
            old(self).phase() is Holding,
            id < old(self).size(),
        ensures
            final(self).wf(),
            final(self).keeps(*old(self)),
            final(self).phase() == old(self).phase().claimed(id as int),
    {
        let mut state = CoordState::Stopped;
        std::mem::swap(&mut state, &mut self.state);
        if let CoordState::Holding { blob } = state {
            self.state = CoordState::Claimed { id, blob };
        }
    }

    /// Puts the batch into the slot of the sender that takes it.
    pub fn publish(&mut self, slot: &mut SenderSlotState)
        requires
            old(self).wf(),
            old(self).phase() is Claimed,
            old(slot)@.vacant(),
        ensures
            final(self).wf(),
            final(self).keeps(*old(self)),
            final(self).phase() == old(self).phase().published(),
            final(slot)@ == old(slot)@.publish(old(self).phase()->Claimed_blob),
    {
        let mut state = CoordState::Stopped;
        std::mem::swap(&mut state, &mut self.state);
        if let CoordState::Claimed { id, blob } = state {
            slot.publish(blob);
            self.state = CoordState::Notifying { id };
        }
    }

    /// The sender has been woken.
    pub fn notified(&mut self)
        requires
            old(self).wf(),
            old(self).phase() is Notifying || old(self).phase() is NotifyingClosed,
        ensures
            final(self).wf(),
            final(self).keeps(*old(self)),
            final(self).phase() == old(self).phase().notified(old(self).size()),
    {
        if let CoordState::NotifyingClosed { next } = self.state {
            if next + 1 < self.pool_size {
                self.state = CoordState::Closing { next: next + 1 };
            } else {
                self.state = CoordState::Stopped;
            }
        } else {
            self.state = CoordState::Collecting;
        }
    }

    /// Closes the slot that is next.
    pub fn close(&mut self, slot: &mut SenderSlotState)
        requires
            old(self).wf(),
            old(self).phase() is Closing,
        ensures
            final(self).wf(),
            final(self).keeps(*old(self)),
            final(self).phase() == old(self).phase().shut(),
            final(slot)@ == old(slot)@.close(),
    {
        if let CoordState::Closing { next } = self.state {
            slot.close();
            self.state = CoordState::NotifyingClosed { next };
        }
    }
}

} // verus!
