//! Posting one batch, with retries.

use vstd::prelude::*;

verus! {

/// How often a batch is posted before it is dropped.
pub const MAX_RETRIES: u16 = 100;

/// One event that Axiom did not take.
pub struct IngestFailure {
    pub error: String,
    pub timestamp: String,
}

/// Axiom's answer to an ingest request.
pub struct IngestStatus {
    pub failed: u64,
    pub ingested: u64,
    pub processed_bytes: u64,
    pub blocks_created: Option<u32>,
    pub failures: Vec<IngestFailure>,
    pub wal_length: Option<u32>,
}

impl IngestStatus {
    /// Every event was taken.
    pub open spec fn clean(self) -> bool {
        self.failed == 0 && self.failures@.len() == 0
    }

    /// Whether every event was taken: none is counted as failed, and no failure
    /// is listed.
    pub fn is_clean(&self) -> (r: bool)
        ensures
            r == self.clean(),
            r <==> self.failed == 0 && self.failures@.len() == 0,
    {
        !(self.failed > 0 || self.failures.len() > 0)
    }
}

/// How a request ended.
pub enum Reply {
    /// With a success status and this answer.
    Status(IngestStatus),
    /// With an error: it could not be sent, or the server reported an error
    /// status.
    Failed,
}

impl Reply {
    /// The batch has arrived.
    pub open spec fn delivered(self) -> bool {
        self matches Reply::Status(status) && status.clean()
    }
}

/// A length of time.
#[derive(Clone, Copy, PartialEq, Eq, Structural, Debug)]
pub struct Backoff {
    pub secs: u64,
    pub nanos: u32,
}

/// What to do after a request.
#[derive(Clone, Copy, PartialEq, Eq, Structural, Debug)]
pub enum AfterReply {
    /// The batch has arrived.
    Delivered,
    /// Axiom answered that it did not take everything. Report it, wait this
    /// long, and go on.
    Rejected { attempt: u16, wait: Backoff },
    /// The request failed. Report it, wait this long, and go on.
    RequestFailed { attempt: u16, wait: Backoff },
}

/// What to do after a wait.
#[derive(Clone, Copy, PartialEq, Eq, Structural, Debug)]
pub enum AfterWait {
    /// Post the batch again.
    Post,
    /// Drop the batch.
    GiveUp,
}

/// The posting of one batch: which attempt it is, and how long to wait if it
/// fails.
#[derive(Clone, Copy, PartialEq, Eq, Structural, Debug)]
pub struct Delivery {
    pub attempt: u16,
    pub backoff: Backoff,
}

impl Delivery {
    /// There are attempts left.
    pub open spec fn wf(self) -> bool {
        self.attempt < MAX_RETRIES
    }

    /// The first attempt, with a wait of half a second if it fails.
    pub fn new() -> (r: Delivery)
        ensures
            r.wf(),
            r.attempt == 0,
            r.backoff == (Backoff { secs: 0, nanos: 500_000_000 }),
    {
        Delivery { attempt: 0, backoff: Backoff { secs: 0, nanos: 500_000_000 } }
    }

    /// What follows a request that ended with `reply`.
    pub open spec fn after_reply(self, reply: Reply) -> AfterReply {
        match reply {
            Reply::Status(status) => if status.clean() {
                AfterReply::Delivered
            } else {
                AfterReply::Rejected { attempt: self.attempt, wait: self.backoff }
            },
            Reply::Failed => AfterReply::RequestFailed {
                attempt: self.attempt,
                wait: self.backoff,
            },
        }
    }

    /// The attempt that follows this one.
    pub open spec fn next(self, longer: Backoff) -> Delivery {
        Delivery { attempt: (self.attempt + 1) as u16, backoff: longer }
    }

    /// What follows a failed attempt and its wait.
    pub open spec fn after_wait(self) -> AfterWait {
        if self.attempt + 1 < MAX_RETRIES {
            AfterWait::Post
        } else {
            AfterWait::GiveUp
        }
    }

    /// Decides what to do after a request.
    pub fn on_reply(&self, reply: &Reply) -> (r: AfterReply)
        ensures
            r == self.after_reply(*reply),
            r is Delivered <==> (*reply matches Reply::Status(status) && status.failed == 0
                && status.failures@.len() == 0),
    {
        match reply {
            Reply::Status(status) => {
                if status.is_clean() {
                    AfterReply::Delivered
                } else {
                    AfterReply::Rejected { attempt: self.attempt, wait: self.backoff }
                }
            },
            Reply::Failed => AfterReply::RequestFailed {
                attempt: self.attempt,
                wait: self.backoff,
            },
        }
    }

    /// Moves on after a failed attempt and its wait. `longer` is how long to
    /// wait if the next attempt fails too.
    pub fn on_waited(&mut self, longer: Backoff) -> (r: AfterWait)
        requires
            old(self).wf(),
        ensures
            *final(self) == old(self).next(longer),
            r == old(self).after_wait(),
            r is Post <==> final(self).wf(),
    {
        self.attempt = self.attempt + 1;
        self.backoff = longer;
        if self.attempt < MAX_RETRIES {
            AfterWait::Post
        } else {
            AfterWait::GiveUp
        }
    }
}

/// How the posting of a batch ends.
#[verifier::ext_equal]
pub struct Outcome {
    /// How often the batch was posted.
    pub posts: nat,
    /// How often a wait followed.
    pub waits: nat,
    /// Whether it arrived.
    pub delivered: bool,
}

/// How the posting of a batch ends from `delivery` on, if attempt `i` is
/// answered by `replies(i)` and the wait after it grows to `longer(i)`.
pub open spec fn outcome(
    delivery: Delivery,
    replies: spec_fn(int) -> Reply,
    longer: spec_fn(int) -> Backoff,
) -> Outcome
    decreases MAX_RETRIES - delivery.attempt,
    when delivery.wf()
{
    let attempt = delivery.attempt as int;
    if delivery.after_reply(replies(attempt)) is Delivered {
        Outcome { posts: 1, waits: 0, delivered: true }
    } else if delivery.after_wait() is GiveUp {
        Outcome { posts: 1, waits: 1, delivered: false }
    } else {
        let rest = outcome(delivery.next(longer(attempt)), replies, longer);
        Outcome { posts: rest.posts + 1, waits: rest.waits + 1, ..rest }
    }
}

/// A batch is posted until it arrives and not again: if attempt `last` is the
/// first that succeeds, it is also the last one made.
pub proof fn law_posted_until_it_arrives(
    delivery: Delivery,
    replies: spec_fn(int) -> Reply,
    longer: spec_fn(int) -> Backoff,
    last: int,
)
    requires
        delivery.wf(),
        delivery.attempt <= last < MAX_RETRIES,
        replies(last).delivered(),
        forall|i: int| delivery.attempt <= i < last ==> !(#[trigger] replies(i)).delivered(),
    ensures
        outcome(delivery, replies, longer) == (Outcome {
            posts: (last - delivery.attempt + 1) as nat,
            waits: (last - delivery.attempt) as nat,
            delivered: true,
        }),
    decreases last - delivery.attempt,
{
    let attempt = delivery.attempt as int;
    if attempt < last {
        assert(!replies(attempt).delivered());
        law_posted_until_it_arrives(delivery.next(longer(attempt)), replies, longer, last);
    }
}

/// A batch that never arrives is dropped after the last attempt, having been
/// posted `MAX_RETRIES` times when counted from the first, with a wait after
/// every attempt.
pub proof fn law_dropped_after_last_attempt(
    delivery: Delivery,
    replies: spec_fn(int) -> Reply,
    longer: spec_fn(int) -> Backoff,
)
    requires
        delivery.wf(),
        forall|i: int| delivery.attempt <= i < MAX_RETRIES ==> !(#[trigger] replies(i)).delivered(),
    ensures
        outcome(delivery, replies, longer) == (Outcome {
            posts: (MAX_RETRIES - delivery.attempt) as nat,
            waits: (MAX_RETRIES - delivery.attempt) as nat,
            delivered: false,
        }),
    decreases MAX_RETRIES - delivery.attempt,
{
    let attempt = delivery.attempt as int;
    assert(!replies(attempt).delivered());
    if attempt + 1 < MAX_RETRIES {
        law_dropped_after_last_attempt(delivery.next(longer(attempt)), replies, longer);
    }
}

} // verus!
