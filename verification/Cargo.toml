[package]
name = "rustmetaverse"
version = "0.1.0"
edition = "2021"
publish = false

[dependencies]
bytes = "1"
uuid = { version = "1", features = ["v4", "serde"] }
chrono = { version = "0.4", features = ["serde"] }
indexmap = { version = "2", features = ["serde"] }
base64 = "0.22"
xml-rs = "0.8"
md5 = "0.7"
serde = { version = "1", features = ["derive"] }
reqwest = { version = "0.12", default-features = false }
tokio = { version = "1", features = ["net", "sync", "time", "rt", "rt-multi-thread", "macros"] }
futures = "0.3"
log = "0.4"
