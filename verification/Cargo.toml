[package]
name = "hls2mp4"
version = "1.0.0"
edition = "2021"
publish = false

[dependencies]
aes = "0.7"
block-modes = "0.8"
hex = "0.4"
url = "2"
m3u8-rs = "*"
anyhow = "1"
clap = { version = "4", features = ["derive"] }
env_logger = "*"
futures = "0.3"
indicatif = "0.17"
log = "0.4"
reqwest = "*"
tokio = { version = "1", features = ["full"] }
