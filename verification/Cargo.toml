[package]
name = "tokio_rate_limit"
version = "0.10.0"
edition = "2021"
publish = false

[dependencies]
flurry = "0.5"
tokio = { version = "1", features = ["rt", "rt-multi-thread", "time", "macros", "sync", "net", "test-util"] }
axum = "0.8"
tonic = "0.14"
http = "1"
tower = { version = "0.5", features = ["util"] }
metrics = "0.24"
thiserror = "2"
tracing = "0.1"
