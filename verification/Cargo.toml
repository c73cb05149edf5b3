[package]
name = "aion"
version = "0.1.0"
edition = "2021"
publish = false

[dependencies]
async-trait = "0.1"
beamr = "*"
chrono = "0.4"
dashmap = "*"
futures = "0.3"
libsql = { version = "*", default-features = false, features = ["core", "replication"] }
serde = { version = "1", features = ["derive"] }
serde_json = "1"
thiserror = "*"
tokio = { version = "1", features = ["rt-multi-thread", "sync", "time", "macros"] }
tracing = "0.1"
uuid = { version = "1", features = ["v4"] }
