[package]
name = "timesimulation"
version = "0.1.0"
edition = "2021"
publish = false

[dependencies]
anyhow = "=1.0.104"
clap = { version = "=4.6.7", features = ["derive"] }
rmp-serde = "=1.3.1"
serde_json = "=1.0.154"
thiserror = "=1.0.69"
tokio = { version = "=1.54.1", features = ["io-std", "io-util", "macros", "net", "rt-multi-thread", "sync", "time"] }
