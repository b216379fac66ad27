[package]
name = "rsocket_rust"
version = "0.7.1"
edition = "2021"
publish = false

[dependencies]
bytes = "1"
tokio = { version = "1", features = ["rt", "rt-multi-thread", "sync", "macros", "net", "time"] }
tokio-util = { version = "0.7", features = ["codec"] }
futures = "0.3"
async-trait = "0.1"
async-stream = "0.3"
dashmap = "5"
thiserror = "1"
anyhow = "1"
log = "0.4"
