[package]
name = "unifaas"
version = "0.1.0"
edition = "2021"
publish = false

[dependencies]
ipnet = "2"
async-channel = "1"
axum = "0.6"
bollard = "0.15"
clap = { version = "4", features = ["derive"] }
hyper = { version = "0.14", features = ["full"] }
libc = "0.2"
nix = "0.26"
serde = { version = "1", features = ["derive"] }
serde_json = "1"
thiserror = "1"
tokio = { version = "1", features = ["full"] }
tokio-util = "0.7"
toml = "0.8"
tracing = "0.1"
tracing-subscriber = "0.3"
uuid = { version = "1", features = ["v4"] }
