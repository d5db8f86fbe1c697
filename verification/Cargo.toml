[package]
name = "minikafka"
version = "0.1.0"
edition = "2021"
publish = false

[dependencies]
serde_json = "1"
tokio = { version = "1", features = ["io-util", "macros", "net", "rt-multi-thread", "sync"] }
clap = { version = "4", features = ["derive"] }
log = "0.4"
simplelog = "0.12"
