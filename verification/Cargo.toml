[package]
name = "gesture_ingest"
version = "0.1.0"
edition = "2021"
publish = false

[dependencies]
rosc = "*"
crossbeam-channel = "*"
serde = { version = "1", features = ["derive"] }
serde_json = "1"
tokio = { version = "1", features = ["net", "rt-multi-thread"] }
tokio-tungstenite = "*"
futures-util = "0.3"
