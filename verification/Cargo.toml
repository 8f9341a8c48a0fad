[package]
name = "tectyl"
version = "0.1.0"
edition = "2021"
publish = false

[dependencies]
anyhow = "1"
crossterm = { version = "*", features = ["event-stream"] }
futures = "0.3"
ropey = "1"
tokio = { version = "1", features = ["rt-multi-thread", "macros", "sync", "fs", "io-util", "time"] }
tokio-util = "0.7"
tracing = "0.1"
tracing-subscriber = "0.3"
