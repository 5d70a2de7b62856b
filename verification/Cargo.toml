[package]
name = "redis_rs"
version = "0.1.0"
edition = "2021"
publish = false

[dependencies]
priority-queue = "*"
tokio = { version = "*", features = ["full"] }
tracing = "*"
tracing-subscriber = "*"
