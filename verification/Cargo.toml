[package]
name = "sandbox_runner"
version = "0.1.0"
edition = "2021"
publish = false

[dependencies]
bytes = "1"
ciborium-ll = "0.2"
chrono = "0.4"
hex = "0.4"
libc = "0.2"
rand = "0.9"
serde = { version = "1", features = ["derive"] }
serde_json = "1"
sha2 = "0.10"
tokio = { version = "1", features = ["rt", "net", "sync", "time", "io-util", "macros", "fs"] }
tokio-util = "0.7"
tracing = "0.1"
