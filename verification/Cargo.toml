[package]
name = "curp"
version = "0.1.0"
edition = "2021"
publish = false

[dependencies]
bincode = "1.3"
clippy-utilities = "0.2"
event-listener = "2.5"
futures = "0.3"
madsim = "0.2"
parking_lot = "0.12"
serde = { version = "1.0", features = ["derive", "rc"] }
thiserror = "1.0"
tokio = { version = "1", features = ["rt", "sync", "time", "macros"] }
tracing = "0.1"
