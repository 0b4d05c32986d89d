[package]
name = "ws_engine"
version = "0.1.0"
edition = "2021"
publish = false

[dependencies]
base64 = "0.13"
bytes = "0.5"
futures = "0.3"
sha1 = "0.6"
tokio = { version = "0.2", features = ["io-util", "rt-core", "stream", "sync"] }
tokio-util = { version = "0.3", features = ["codec"] }
