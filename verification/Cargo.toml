[package]
name = "cas_relay"
version = "0.1.0"
edition = "2021"
publish = false

[dependencies]
base64 = "=0.22.1"
reqwest = "=0.12.28"
serde = { version = "=1.0.229", features = ["derive"] }
serde_json = "=1.0.154"
tokio = { version = "=1.54.1", features = ["sync", "time"] }
urlencoding = "=2.1.3"

[dev-dependencies]
regex = "=1.13.1"
