[package]
name = "linkflow"
version = "0.1.0"
edition = "2021"
publish = false

[dependencies]
chrono = "0.4"
rusqlite = { version = "*", features = ["bundled"] }
serde = { version = "1", features = ["derive"] }
serde_json = "1"
tokio = { version = "1", features = ["sync", "time", "rt", "rt-multi-thread", "macros"] }
uuid = { version = "1", features = ["v4"] }
