[package]
name = "nyanpasu-core-manager"
version = "0.1.0"
edition = "2021"
publish = false

[dependencies]
camino = "1"
parking_lot = "0.12"
serde = { version = "1", features = ["derive"] }
serde_json = "1"
tokio = { version = "1", features = ["fs", "rt", "sync"] }
tracing = "0.1"
