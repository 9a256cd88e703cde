[package]
name = "tracing-axiom"
version = "0.1.0"
edition = "2021"
publish = false

[dependencies]
bytes = "1"
reqwest = { version = "0.12", default-features = false, features = ["rustls-tls"] }
serde = { version = "1", features = ["derive"] }
serde_json = "1"
time = { version = "0.3", features = ["formatting"] }
tokio = { version = "1", features = ["macros", "rt", "rt-multi-thread", "sync", "time"] }
tracing = "0.1"
zstd = "0.13"
