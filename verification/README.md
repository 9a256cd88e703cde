# tracing-axiom

[Axiom.co](https://axiom.co) backend for the `tracing` crate, with its logic
verified by [Verus](https://github.com/verus-lang/verus).

- `src/` is the verified library. It turns events and metrics into what Axiom
  ingests, collects events into batches, hands the batches to a pool of senders,
  and decides about retries. Every function carries a contract that Verus proves;
  the calls into other crates, whose contracts are taken on trust, stand in
  `src/outside.rs`.
- `app/` runs the library on `tokio` and `reqwest`: it owns the event queue, the
  timers and the HTTP client, performs the actions that the library asks for and
  reports what happened.
- `tests/` runs the library on concrete values, among them a whole pool driven
  step by step against a stub server.

## Usage

Assumes the `tokio` runtime, and a dataset whose `data` field is a map field.

```rs
let axiom: Axiom = init(Config {
    evt_que_len: 4 << 10,
    service_name: "example-service",
    base_url: "https://us-east-1.aws.edge.axiom.co",
    api_key: &api_key,
    dataset_id: "example-dataset",
    collect_target: 4 << 10,
    collect_timeout: std::time::Duration::from_millis(500),
    sender_pool_size: 1,
});

// `axiom.evt_tx` also takes events of any type that implements `serde::Serialize`.
// The fields of a map are sent beside the service; anything else is sent as the
// field `extra`.

// Don't forget to deinit! Drop will panic!
axiom.deinit().await;
```
