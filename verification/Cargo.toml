[package]
name = "changeset"
version = "0.1.0"
edition = "2021"
publish = false

[dependencies]
anyhow = "1"
ego-tree = "0.6"
env_logger = "0.10"
futures = "0.3"
git2 = { version = "0.18", default-features = false }
heck = "0.4"
html-escape = "0.2"
http-cache-reqwest = "0.11"
itertools = "0.11"
log = "0.4"
regex = "1"
reqwest = "0.11"
reqwest-middleware = "0.2"
reqwest-retry = "0.3"
scraper = "0.17"
selectors = "0.25"
serde = { version = "1", features = ["derive"] }
serde_json = "1"
serde_with = "3"
strum = { version = "0.25", features = ["derive"] }
time = { version = "0.3", features = ["macros", "parsing"] }
tokio = { version = "1", features = ["full"] }
tokio-stream = "0.1"
