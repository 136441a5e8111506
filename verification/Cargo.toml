[package]
name = "influxdb3_distributed"
version = "0.1.0"
edition = "2021"
publish = false

[dependencies]
twox-hash = "=2.1.5"
dashmap = "=6.2.1"
serde = { version = "=1.0.229", features = ["derive"] }
serde_json = "=1.0.154"
uuid = { version = "=1.29.0", features = ["v4"] }
parking_lot = "=0.12.5"
async-trait = "=0.1.92"
tokio = { version = "=1.54.1", features = ["rt", "sync", "time", "macros"] }
bytes = "=1.12.1"
thiserror = "=2.0.21"
chrono = { version = "0.4", default-features = false, features = ["alloc"] }
