[package]
name = "libmoshpit"
version = "0.1.0"
edition = "2021"
publish = false

[dependencies]
anyhow = "=1.0.104"
aws-lc-rs = "=1.18.2"
bincode = "=2.0.1"
bon = "=3.10.3"
bytes = "=1.12.1"
clap = { version = "=4.6.7", features = ["derive"] }
dirs2 = "=3.0.1"
getset = "=0.1.7"
hex = "=0.4.3"
serde = { version = "=1.0.229", features = ["derive"] }
thiserror = "=2.0.21"
tokio = { version = "=1.54.1", features = ["net", "io-util", "rt-multi-thread", "macros", "sync"] }
tracing = "=0.1.44"
tracing-appender = "=0.2.5"
tracing-subscriber = { version = "=0.3.23", features = ["env-filter"] }
tracing-subscriber-init = { version = "=0.2.7", features = ["tstime"] }
uuid = { version = "=1.29.0", features = ["v4"] }
