[package]
name = "named"
version = "0.1.0"
edition = "2021"
publish = false

[dependencies]
async-trait = "0.1"
dashmap = "6"
env_logger = "0.11"
hickory-client = { version = "0.24", features = ["dns-over-https-rustls"] }
hickory-proto = { version = "0.24", features = ["dns-over-https-rustls"] }
hickory-server = "0.24"
log = "0.4"
metrics = "0.23"
once_cell = "1"
pico-args = "0.5"
rustls = "0.21"
rustls-platform-verifier = "0.1"
serde = { version = "1", features = ["derive"] }
thiserror = "1"
tokio = { version = "1", features = ["full"] }
toml = "0.8"
