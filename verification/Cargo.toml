[package]
name = "tracing-newrelic"
version = "0.1.0"
edition = "2021"
publish = false

[dependencies]
flate2 = "1"
uuid = { version = "1", features = ["v4"] }
reqwest = { version = "0.11", default-features = false }
tokio = { version = "1", features = ["rt", "sync", "time"] }
futures-util = "0.3"
tracing-core = "0.1"
tracing-subscriber = "0.3"
