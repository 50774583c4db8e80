[package]
name = "pending_sync"
version = "0.1.0"
edition = "2021"
publish = false

[dependencies]
anyhow = "1"
async-trait = "0.1"
futures = "0.3"
serde = { version = "1", features = ["derive"] }
serde_with = "3"
tokio = { version = "1", features = ["sync", "time", "rt", "macros"] }
tracing = "0.1"
