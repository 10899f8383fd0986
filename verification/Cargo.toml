[package]
name = "subagents"
version = "0.1.0"
edition = "2021"
publish = false

[dependencies]
uuid = { version = "1", features = ["v4"] }
chrono = "0.4"
serde = { version = "1", features = ["derive"] }
serde_json = "1"
serde_yaml = "0.9"
tokio = { version = "1", features = ["sync", "rt", "rt-multi-thread", "time", "fs", "macros"] }
anyhow = "1"
indoc = "2"
