[package]
name = "bah"
version = "0.1.0"
edition = "2021"
publish = false

[dependencies]
anyhow = "=1.0.104"
async-channel = "=2.5.0"
bluer = "=0.17.4"
chrono = "=0.4.45"
env_logger = "=0.11.11"
image = { version = "=0.25.10", default-features = false, features = ["bmp", "dds", "exr", "ff", "gif", "hdr", "ico", "jpeg", "png", "pnm", "qoi", "tga", "tiff", "webp"] }
log = "=0.4.35"
ratatui = "=0.30.2"
serde = { version = "=1.0.229", features = ["derive"] }
serde_json = "=1.0.154"
sha2 = "=0.10.9"
tokio = { version = "=1.54.1", features = ["rt-multi-thread", "time"] }
toml = "=0.8.23"
uuid = { version = "=1.29.0", features = ["v5"] }
zbus = { version = "=5.19.0", features = ["blocking-api"] }
