[package]
name = "chat"
version = "0.1.0"
edition = "2021"
publish = false

[dependencies]
tokio = { version = "*", features = ["rt-multi-thread", "net", "io-util", "sync", "signal", "macros"] }
clap = { version = "*", features = ["derive"] }
color-eyre = "*"
thiserror = "*"
tracing = "*"
tracing-subscriber = "*"
