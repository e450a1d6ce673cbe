[package]
name = "bucface"
version = "0.1.0"
edition = "2021"
publish = false

[dependencies]
chrono = "*"
tokio = { version = "*", features = ["rt-multi-thread", "macros", "sync", "net", "time"] }
tokio-tungstenite = "*"
futures-util = "*"
url = "*"
log = "*"
env_logger = "*"
