[package]
name = "branchkit_stage_sdk"
version = "0.1.0"
edition = "2021"
publish = false

[dependencies]
serde = { version = "1", features = ["derive"] }
serde_json = "1"
getrandom = "0.2"
tokio = { version = "1", features = ["io-util", "io-std", "macros", "rt", "sync", "signal", "time"] }
