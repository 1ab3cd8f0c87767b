[package]
name = "nhop"
version = "0.1.0"
edition = "2021"
publish = false

[dependencies]
arc-swap = "1"
argh = "0.1"
dirs = "*"
fs2 = "0.4"
humantime = "2"
ipnet = "2"
libc = "0.2"
serde = { version = "1", features = ["derive"] }
serde_json = "1"
socket2 = { version = "*", features = ["all"] }
thiserror = "*"
tokio = { version = "1", features = ["rt-multi-thread", "net", "io-util", "io-std", "time", "sync", "macros", "process", "signal", "fs"] }
tokio-socks = "0.5"
tracing = "0.1"
tracing-appender = "0.2"
tracing-subscriber = { version = "0.3", features = ["json", "env-filter"] }
