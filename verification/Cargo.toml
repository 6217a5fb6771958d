[package]
name = "tokio_fusion"
version = "0.1.0"
edition = "2021"
publish = false

[dependencies]
rand = "0.9"
num_cpus = "1"
serde_json = "1"
thiserror = "2"
tokio = { version = "1", features = ["rt", "rt-multi-thread", "sync", "macros", "time"] }
futures = "0.3"
tracing = "0.1"
