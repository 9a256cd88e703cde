//! Retries of one batch.

use tracing_axiom::delivery::{
    AfterReply, AfterWait, Backoff, Delivery, IngestFailure, IngestStatus, Reply, MAX_RETRIES,
};

fn status(failed: u64, failures: usize) -> IngestStatus {
    IngestStatus {
        failed,
        ingested: 7,
        processed_bytes: 100,
        blocks_created: Some(1),
        failures: (0..failures)
            .map(|i| IngestFailure {
                error: format!("bad field {}", i),
                timestamp: String::from("2024-01-01T00:00:00Z"),
            })
            .collect(),
        wal_length: None,
    }
}

#[test]
fn status_is_clean_without_failures_only() {
    assert!(status(0, 0).is_clean());
    assert!(!status(1, 0).is_clean());
    assert!(!status(0, 1).is_clean());
    assert!(!status(2, 2).is_clean());
}

#[test]
fn first_attempt_waits_half_a_second() {
    let delivery = Delivery::new();
    let wait = Backoff { secs: 0, nanos: 500_000_000 };
    assert_eq!(delivery.attempt, 0);
    assert_eq!(delivery.backoff, wait);
    assert_eq!(
        delivery.on_reply(&Reply::Failed),
        AfterReply::RequestFailed { attempt: 0, wait }
    );
    assert_eq!(
        delivery.on_reply(&Reply::Status(status(3, 0))),
        AfterReply::Rejected { attempt: 0, wait }
    );
    assert_eq!(
        delivery.on_reply(&Reply::Status(status(0, 1))),
        AfterReply::Rejected { attempt: 0, wait }
    );
    assert_eq!(delivery.on_reply(&Reply::Status(status(0, 0))), AfterReply::Delivered);
}

/// Posts until `first_success`; how often it posted and waited, and whether it
/// arrived.
fn drive(first_success: u16) -> (usize, usize, bool) {
    let mut delivery = Delivery::new();
    let (mut posts, mut waits) = (0, 0);
    loop {
        posts += 1;
        let reply = if delivery.attempt == first_success {
            Reply::Status(status(0, 0))
        } else {
            Reply::Failed
        };
        match delivery.on_reply(&reply) {
            AfterReply::Delivered => return (posts, waits, true),
            AfterReply::Rejected { wait, .. } | AfterReply::RequestFailed { wait, .. } => {
                waits += 1;
                if delivery.on_waited(wait) == AfterWait::GiveUp {
                    return (posts, waits, false);
                }
            }
        }
    }
}

#[test]
fn posted_until_it_arrives() {
    assert_eq!(drive(0), (1, 0, true));
    assert_eq!(drive(4), (5, 4, true));
    assert_eq!(drive(MAX_RETRIES - 1), (100, 99, true));
}

#[test]
fn dropped_after_a_hundred_attempts() {
    assert_eq!(drive(MAX_RETRIES), (100, 100, false));
}

#[test]
fn wait_is_taken_over_from_the_caller() {
    let mut delivery = Delivery::new();
    let longer = Backoff { secs: 0, nanos: 750_000_000 };
    assert_eq!(delivery.on_waited(longer), AfterWait::Post);
    assert_eq!(delivery.attempt, 1);
    assert_eq!(delivery.backoff, longer);
    assert_eq!(
        delivery.on_reply(&Reply::Failed),
        AfterReply::RequestFailed { attempt: 1, wait: longer }
    );
}
