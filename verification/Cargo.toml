[package]
name = "flo_core"
version = "0.1.0"
edition = "2021"
publish = false

[dependencies]
bytes = "0.5"
futures = "0.3"
parking_lot = "0.11"
rusoto_kinesis = { version = "0.45", default-features = false, features = ["rustls"] }
tokio = { version = "0.2", features = ["sync", "rt-threaded", "tcp", "stream", "macros", "time", "signal", "io-util"] }
tokio-util = { version = "0.3", features = ["codec"] }
tracing = "0.1"
tracing-futures = "0.2"
