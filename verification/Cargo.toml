[package]
name = "relay_control"
version = "0.1.0"
edition = "2021"
publish = false

[dependencies]
turn = "*"
webrtc-util = "*"
tokio = { version = "*", features = ["full"] }
clap = "*"
netdev = "*"
anyhow = "*"
env_logger = "*"
base64 = "*"
hmac = "*"
sha1 = "*"
