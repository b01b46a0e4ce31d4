[package]
name = "obs_webrtc"
version = "0.1.0"
edition = "2021"
publish = false

[dependencies]
anyhow = "=1.0.104"
bytes = "=1.12.1"
env_logger = "=0.10.2"
if-addrs = "=0.10.2"
log = "=0.4.35"
reqwest = { version = "=0.11.27", default-features = false, features = ["rustls-tls"] }
tokio = { version = "=1.54.1", features = ["rt-multi-thread", "macros", "sync", "time"] }
webrtc = "=0.11.0"
