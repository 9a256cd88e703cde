//! Collecting events into batches.

use tracing_axiom::batch::{BatchBlob, CollectAction, Collector};

fn records(texts: &[&str]) -> Vec<Vec<u8>> {
    texts.iter().map(|t| t.as_bytes().to_vec()).collect()
}

fn text(blob: &BatchBlob) -> String {
    String::from_utf8(zstd::stream::decode_all(&blob.body[..]).unwrap()).unwrap()
}

fn flushed(action: CollectAction) -> BatchBlob {
    match action {
        CollectAction::Flush(blob) => blob,
        CollectAction::Receive { limit, .. } => panic!("receives up to {} more", limit),
        CollectAction::Close => panic!("closes"),
    }
}

fn limit(action: CollectAction, restarts: bool) -> usize {
    match action {
        CollectAction::Receive { limit, restart_timer } => {
            assert_eq!(restart_timer, restarts);
            limit
        }
        _ => panic!("does not receive"),
    }
}

#[test]
fn batch_is_flushed_when_the_target_is_reached() {
    let mut collector = Collector::new(3);
    assert_eq!(limit(collector.begin(), true), 3);
    assert_eq!(limit(collector.on_read(&records(&["{\"a\":1}"])), false), 2);
    let blob = flushed(collector.on_read(&records(&["{\"b\":2}", "{\"c\":3}"])));
    assert_eq!(blob.evts_count, 3);
    assert_eq!(text(&blob), "{\"a\":1}\n{\"b\":2}\n{\"c\":3}\n");
    assert_ne!(&blob.body[..], text(&blob).as_bytes());
    assert_eq!(limit(collector.begin(), true), 3);
}

#[test]
fn timeout_flushes_what_there_is() {
    let mut collector = Collector::new(10);
    assert_eq!(limit(collector.on_read(&records(&["1", "2"])), false), 8);
    let blob = flushed(collector.on_elapsed());
    assert_eq!(blob.evts_count, 2);
    assert_eq!(text(&blob), "1\n2\n");
}

#[test]
fn timeout_with_nothing_to_send_waits_again() {
    let mut collector = Collector::new(10);
    assert_eq!(limit(collector.on_elapsed(), true), 10);
    assert_eq!(limit(collector.on_elapsed(), true), 10);
}

#[test]
fn closed_queue_flushes_then_closes() {
    let mut collector = Collector::new(4);
    assert_eq!(limit(collector.on_read(&records(&["x"])), false), 3);
    let blob = flushed(collector.on_read(&records(&[])));
    assert_eq!(blob.evts_count, 1);
    assert!(matches!(collector.on_read(&records(&[])), CollectAction::Close));
}

#[test]
fn closed_queue_closes_at_once_when_nothing_is_held() {
    let mut collector = Collector::new(4);
    assert!(matches!(collector.on_read(&records(&[])), CollectAction::Close));
}

#[test]
fn batches_follow_one_another_without_mixing() {
    let mut collector = Collector::new(2);
    let first = flushed(collector.on_read(&records(&["a", "b"])));
    let second = flushed(collector.on_read(&records(&["c", "d"])));
    assert_eq!(text(&first), "a\nb\n");
    assert_eq!(text(&second), "c\nd\n");
}

#[test]
fn empty_record_is_an_empty_line() {
    let mut collector = Collector::new(2);
    let blob = flushed(collector.on_read(&records(&["", "x"])));
    assert_eq!(text(&blob), "\nx\n");
    assert_eq!(blob.evts_count, 2);
}

#[test]
fn large_batch_reads_back() {
    let many: Vec<Vec<u8>> =
        (0..20_000).map(|i| format!("{{\"seq\":{}}}", i).into_bytes()).collect();
    let mut collector = Collector::new(many.len());
    let blob = flushed(collector.on_read(&many));
    let lines: Vec<Vec<u8>> = text(&blob).lines().map(|l| l.as_bytes().to_vec()).collect();
    assert_eq!(lines, many);
}
