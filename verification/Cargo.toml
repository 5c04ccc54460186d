[package]
name = "peers"
version = "0.1.0"
edition = "2021"
publish = false

[dependencies]
anyhow = "1"
bytes = "1"
futures = "0.3"
once_cell = "1"
snarkvm = "*"
tokio = { version = "1", features = ["macros", "net", "rt", "sync", "time"] }
tokio-stream = "0.1"
tokio-util = { version = "0.7", features = ["codec"] }
tracing = "0.1"
