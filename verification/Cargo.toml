[package]
name = "seg"
version = "0.1.0"
edition = "2021"
publish = false

[dependencies]
chrono = "*"
clap = { version = "*", features = ["derive"] }
pnet = "*"
serde_json = "*"
tempfile = "*"
tokio = { version = "*", features = ["rt-multi-thread", "macros", "net", "io-util", "fs", "process", "signal", "sync", "time"] }
