[package]
name = "file_orchestrator"
version = "0.1.0"
edition = "2021"
publish = false

[dependencies]
blake3 = { version = "1", features = ["pure"] }
infer = "0.15"
sled = "0.34"
serde = { version = "1", features = ["derive"] }
serde_json = "1"
toml = "0.8"
sysinfo = "0.30"
notify = "6"
tokio = { version = "1", features = ["rt-multi-thread", "macros", "fs", "sync", "time"] }
clap = { version = "4", features = ["derive"] }
tracing = "0.1"
tracing-subscriber = "0.3"
uuid = { version = "1", features = ["v4"] }
thiserror = "1"
