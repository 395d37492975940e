[package]
name = "ullfs"
version = "0.1.0"
edition = "2021"
publish = false

[dependencies]
xxhash-rust = { version = "=0.8.19", features = ["xxh3"] }
ignore = "=0.4.34"
serde_json = "=1.0.154"
tokio = { version = "=1.54.1", features = ["full"] }
bytes = "=1.12.1"
anyhow = "=1.0.104"
log = "=0.4.35"
env_logger = "=0.11.11"
chrono = "=0.4.45"
libc = "=0.2.191"
structopt = "=0.3.26"
aya = { version = "=0.13.1", features = ["async_tokio"] }
