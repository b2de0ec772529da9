[package]
name = "flo_core"
version = "0.1.0"
edition = "2021"
publish = false

[dependencies]
base64 = "0.13"
rand = "0.8"
parking_lot = "0.12"
lazy_static = "1.4"
tokio = { version = "1", features = ["rt", "time", "sync", "macros"] }
futures = "0.3"
tracing = "0.1"
thiserror = "1"
prost = "0.12"
tonic = { version = "0.11", default-features = false }
serde_json = "1"
