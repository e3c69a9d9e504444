[package]
name = "proxyrs"
version = "0.1.0"
edition = "2021"
publish = false

[dependencies]
anyhow = "1"
base64 = "0.22"
env_logger = "0.11"
log = "0.4"
rand = "0.8"
regex = "1"
reqwest = { version = "0.12", features = ["json"] }
scraper = "*"
serde = { version = "1", features = ["derive"] }
tokio = { version = "1", features = ["macros", "rt-multi-thread", "sync", "time"] }
toml = "0.8"
