[package]
name = "etl_destinations"
version = "0.1.0"
edition = "2021"
publish = false

[dependencies]
anyhow = "1"
arrow = { version = "=56.2.1", default-features = false }
aws-lc-rs = "=1.19.0"
base64 = "=0.22.1"
chrono = { version = "=0.4.45", default-features = false, features = ["std", "alloc"] }
dashmap = "=6.2.1"
datafusion-common = { version = "=50.3.0", default-features = false }
futures = "=0.3.34"
iceberg = { version = "=0.6.0", default-features = false }
secrecy = "=0.10.3"
serde = { version = "=1.0.229", features = ["derive"] }
serde_json = "=1.0.154"
tokio = { version = "=1.54.1", features = ["sync", "rt", "signal", "macros"] }
tracing = "0.1"
utoipa = "5"
uuid = { version = "=1.29.0", features = ["v4"] }
