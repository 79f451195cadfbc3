[package]
name = "ferropress"
version = "0.1.0"
edition = "2021"
publish = false

[dependencies]
regex = "1"
serde = { version = "1", features = ["derive"] }
serde_json = "1"
async-std = { version = "1", features = ["attributes"] }
futures = "0.3"
log = "0.4"
env_logger = "0.11"
