//! Configuration and its faults.

use std::time::Duration;

use tracing_axiom::config::{
    bearer, check_redirect, ingest_url, lingering_senders, Config, ConfigError, LossyRedirect,
    MAX_QUEUE_LEN,
};

fn config() -> Config<'static> {
    Config {
        api_key: "test-key",
        base_url: "https://us-east-1.aws.edge.axiom.co",
        dataset_id: "example-dataset",
        evt_que_len: 4 << 10,
        service_name: "example-service",
        collect_target: 4 << 10,
        collect_timeout: Duration::from_millis(500),
        sender_pool_size: 1,
    }
}

fn fault(cfg: Config<'static>) -> ConfigError {
    match cfg.prepare() {
        Ok(_) => panic!("usable"),
        Err(e) => e,
    }
}

#[test]
fn usable_configuration() {
    let startup = match config().prepare() {
        Ok(startup) => startup,
        Err(e) => panic!("{:?}", e),
    };
    assert_eq!(
        startup.ingest_url,
        "https://us-east-1.aws.edge.axiom.co/v1/ingest/example-dataset"
    );
    assert_eq!(startup.bearer, "Bearer test-key");
}

#[test]
fn each_fault_is_reported() {
    assert_eq!(fault(Config { sender_pool_size: 0, ..config() }), ConfigError::EmptyPool);
    assert_eq!(fault(Config { evt_que_len: 0, ..config() }), ConfigError::QueueLength);
    assert_eq!(
        fault(Config { evt_que_len: MAX_QUEUE_LEN + 1, ..config() }),
        ConfigError::QueueLength
    );
    assert_eq!(fault(Config { base_url: "not a url", ..config() }), ConfigError::IngestUrl);
    assert_eq!(fault(Config { api_key: "line\nbreak", ..config() }), ConfigError::ApiKey);
}

#[test]
fn first_fault_wins() {
    let worst = Config {
        sender_pool_size: 0,
        evt_que_len: 0,
        base_url: "",
        api_key: "\0",
        ..config()
    };
    assert_eq!(fault(worst), ConfigError::EmptyPool);
    assert_eq!(
        fault(Config { base_url: "", api_key: "\0", ..config() }),
        ConfigError::IngestUrl
    );
    assert!(Config { evt_que_len: MAX_QUEUE_LEN, ..config() }.prepare().is_ok());
}

#[test]
fn ingest_url_is_relative_to_the_base() {
    assert_eq!(
        ingest_url("http://127.0.0.1:80/", "test").as_deref(),
        Some("http://127.0.0.1/v1/ingest/test")
    );
    assert_eq!(
        ingest_url("https://host/prefix/", "d").as_deref(),
        Some("https://host/prefix/v1/ingest/d")
    );
    assert_eq!(
        ingest_url("https://host/prefix", "d").as_deref(),
        Some("https://host/v1/ingest/d")
    );
    assert_eq!(
        ingest_url("https://host", "with space").as_deref(),
        Some("https://host/v1/ingest/with%20space")
    );
    assert_eq!(ingest_url("mailto:someone", "d"), None);
}

#[test]
fn bearer_takes_header_characters_only() {
    assert_eq!(bearer("abc").as_deref(), Some("Bearer abc"));
    assert_eq!(bearer("").as_deref(), Some("Bearer "));
    assert_eq!(bearer("tab\there").as_deref(), Some("Bearer tab\there"));
    assert_eq!(bearer("schl\u{fc}ssel").as_deref(), Some("Bearer schl\u{fc}ssel"));
    assert_eq!(bearer("a\rb"), None);
    assert_eq!(bearer("a\u{7f}b"), None);
    assert_eq!(bearer("a\u{1f}b"), None);
    assert!(bearer("a\u{80}b").is_some());
}

#[test]
fn redirects_that_drop_the_body_are_refused() {
    for status in [302u16, 303] {
        let refused = check_redirect(status, String::from("https://host/login")).unwrap_err();
        assert_eq!(refused.status, status);
        assert_eq!(refused.to, "https://host/login");
    }
    for status in [300u16, 301, 304, 307, 308] {
        assert!(check_redirect(status, String::from("https://host/")).is_ok());
    }
}

#[test]
fn lossy_redirect_message() {
    let e = LossyRedirect { status: 302, to: String::from("https://host/login") };
    assert_eq!(
        e.message(),
        "lossy HTTP 302 redirect to https://host/login would cut off our body"
    );
    let e = LossyRedirect { status: 0, to: String::new() };
    assert_eq!(e.message(), "lossy HTTP 0 redirect to  would cut off our body");
    let e = LossyRedirect { status: u16::MAX, to: String::from("x") };
    assert_eq!(e.message(), "lossy HTTP 65535 redirect to x would cut off our body");
}

#[test]
fn lingering_senders_are_counted_without_our_own() {
    assert_eq!(lingering_senders(1), None);
    assert_eq!(lingering_senders(2), Some(1));
    assert_eq!(lingering_senders(9), Some(8));
}
