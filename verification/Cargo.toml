[package]
name = "vpnet"
version = "0.1.0"
edition = "2021"
publish = false

[dependencies]
ring = "0.17"
base64 = "0.22"
rand = "0.8"
tokio = { version = "1", features = ["rt-multi-thread", "macros", "net", "time", "signal", "sync"] }
clap = { version = "4", features = ["derive"] }
env_logger = "0.11"
log = "0.4"
serde = { version = "1", features = ["derive"] }
serde_json = "1"
thiserror = "1"
toml = "0.8"
chrono = "0.4"
