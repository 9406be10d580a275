[package]
name = "sfu_room"
version = "0.1.0"
edition = "2021"
publish = false

[dependencies]
secrecy = "0.10"
serde_json = "1"
thiserror = "2"
time = { version = "0.3", features = ["formatting"] }
tokio = { version = "1", features = ["sync", "time", "rt", "macros"] }
tracing = "0.1"
uuid = { version = "1", features = ["v4"] }
