[package]
name = "tail"
version = "0.1.0"
edition = "2021"
publish = false

[dependencies]
chrono = "0.4"
serde = { version = "1", features = ["derive"] }
tokio = { version = "1", features = ["rt-multi-thread", "net", "io-util", "sync", "time", "macros"] }
tracing = "0.1"
thiserror = "*"
anyhow = "1"
dark-light = "*"
