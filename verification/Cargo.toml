[package]
name = "httpcore"
version = "0.1.0"
edition = "2021"
publish = false

[dependencies]
anyhow = "*"
tokio = { version = "*", features = ["io-util", "macros", "net", "rt-multi-thread"] }
tracing = "*"
tracing-subscriber = "*"
