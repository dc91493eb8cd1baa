[package]
name = "wirekit"
version = "0.1.0"
edition = "2021"
publish = false

[dependencies]
bytes = "1"
tokio = { version = "1", features = ["sync", "net", "io-util", "rt", "rt-multi-thread", "macros", "signal", "time"] }
tokio-stream = "0.1"
async-stream = "0.3"
tracing = "0.1"
tracing-subscriber = "0.3"
uuid = { version = "1", features = ["v4"] }
libc = "0.2"
