//! Posting a batch until it arrives.

use vstd::prelude::*;

#[allow(unused_imports)]
use crate::delivery::{
    outcome, AfterReply, AfterWait, Backoff, Delivery, IngestStatus, Outcome, Reply,
};

verus! {

/// A status is clean exactly if it counts no failed event and lists no failure,
/// whatever else it says.
pub proof fn law_clean_means_no_failure(status: IngestStatus, r: bool)
    requires
        call_ensures(IngestStatus::is_clean, (&status,), r),
    ensures
        status.failed > 0 ==> !r,
        status.failures@.len() > 0 ==> !r,
        status.failed == 0 && status.failures@.len() == 0 ==> r,
{
}

/// A delivery ends exactly on a status that counts no failed event and lists no
/// failure. Any other status, and any failed request, is reported with the number
/// of the attempt and the wait that is due.
pub proof fn law_only_a_clean_status_ends_a_delivery(
    delivery: Delivery,
    reply: Reply,
    r: AfterReply,
)
    requires
        call_ensures(Delivery::on_reply, (&delivery, &reply), r),
    ensures
        match reply {
            Reply::Status(status) => if status.failed > 0 || status.failures@.len() > 0 {
                r matches AfterReply::Rejected { attempt, wait } && attempt == delivery.attempt
                    && wait == delivery.backoff
            } else {
                r is Delivered
            },
            Reply::Failed => r matches AfterReply::RequestFailed { attempt, wait } && attempt
                == delivery.attempt && wait == delivery.backoff,
        },
{
}

/// The same, of every status and every stage of a delivery: a failed or listed
/// event keeps the delivery going.
pub proof fn law_a_failure_never_ends_a_delivery(delivery: Delivery, status: IngestStatus)
    ensures
        status.failed > 0 || status.failures@.len() > 0 ==> !(delivery.after_reply(
            Reply::Status(status),
        ) is Delivered),
        !(delivery.after_reply(Reply::Failed) is Delivered),
        status.failed == 0 && status.failures@.len() == 0 ==> delivery.after_reply(
            Reply::Status(status),
        ) is Delivered,
{
}

/// A delivery begins with the first of a hundred attempts and a wait of half a
/// second.
pub proof fn law_delivery_begins(r: Delivery)
    requires
        call_ensures(Delivery::new, (), r),
    ensures
        r.attempt == 0,
        r.backoff.secs == 0,
        r.backoff.nanos == 500_000_000,
{
}

/// A wait uses up one attempt and takes over the next wait; the batch is posted
/// again exactly if fewer than a hundred attempts are used up.
pub proof fn law_a_wait_uses_up_an_attempt(delivery: &mut Delivery, longer: Backoff, r: AfterWait)
    requires
        old(delivery).attempt < 100,
        call_ensures(Delivery::on_waited, (delivery, longer), r),
    ensures
        final(delivery).attempt == old(delivery).attempt + 1,
        final(delivery).backoff == longer,
        r is Post <==> old(delivery).attempt + 1 < 100,
        r is GiveUp <==> old(delivery).attempt + 1 == 100,
{
}

/// The reply does not carry a batch in whole.
pub open spec fn falls_short(reply: Reply) -> bool {
    match reply {
        Reply::Status(status) => status.failed > 0 || status.failures@.len() > 0,
        Reply::Failed => true,
    }
}

/// From the first attempt on, a batch is posted a hundred times at most. It
/// arrives exactly if one of the first hundred replies carries it in whole, and
/// then the first such reply is the last; between two posts there is one wait, and
/// one follows the last post of a batch that is dropped.
pub proof fn law_first_whole_reply_of_a_hundred(
    delivery: Delivery,
    replies: spec_fn(int) -> Reply,
    longer: spec_fn(int) -> Backoff,
    n: int,
)
    requires
        delivery.attempt == 0,
        0 <= n <= 100,
        forall|i: int| 0 <= i < n ==> falls_short(#[trigger] replies(i)),
        n < 100 ==> !falls_short(replies(n)),
    ensures
        outcome(delivery, replies, longer).delivered <==> n < 100,
        outcome(delivery, replies, longer).posts == if n < 100 {
            n + 1
        } else {
            100
        },
        outcome(delivery, replies, longer).waits == n,
{
    assert forall|i: int| 0 <= i < n implies !(#[trigger] replies(i)).delivered() by {
        assert(falls_short(replies(i)));
    }
    if n < 100 {
        crate::delivery::law_posted_until_it_arrives(delivery, replies, longer, n);
    } else {
        crate::delivery::law_dropped_after_last_attempt(delivery, replies, longer);
    }
}

} // verus!
