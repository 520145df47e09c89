[package]
name = "chronicle_broker"
version = "0.1.0"
edition = "2021"
publish = false

[dependencies]
lru = "=0.19.0"
hex = "=0.4.3"
serde = { version = "=1.0.229", features = ["derive"] }
serde_json = "=1.0.154"
tokio = { version = "=1.54.1", features = ["fs", "io-util", "sync", "rt"] }
anyhow = "=1.0.104"
log = "=0.4.34"
ron = "=0.12.2"
bee-message = { version = "=0.1.7", features = ["serde"] }
bee-common = "=0.5.0"
