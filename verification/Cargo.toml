[package]
name = "txt_chat"
version = "0.1.0"
edition = "2021"
publish = false

[dependencies]
anyhow = "1"
chrono = { version = "0.4", default-features = false, features = ["clock", "std"] }
futures = "0.3"
nanoid = "0.4"
thiserror = "1"
tokio = { version = "1", features = ["rt", "rt-multi-thread", "net", "io-util", "io-std", "macros", "sync"] }
tokio-util = { version = "0.7", features = ["codec"] }
tracing = "0.1"
tracing-subscriber = "0.3"
