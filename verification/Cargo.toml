[package]
name = "ws_replier"
version = "0.1.0"
edition = "2021"
publish = false

[dependencies]
tiny-keccak = { version = "2.0", features = ["keccak"] }
rand = "0.8"
tokio-util = "0.7"
tokio = { version = "1", features = ["rt-multi-thread", "macros", "sync", "time"] }
tokio-tungstenite = "0.21"
futures-util = "0.3"
env_logger = "0.11"
num_cpus = "1"
