[package]
name = "rodbot"
version = "0.1.0"
edition = "2021"
publish = false

[dependencies]
anyhow = "1"
clap = "2"
derefable = "*"
jsonpath = "*"
log = "0.4"
serde = { version = "1", features = ["derive"] }
serde_json = "1"
serde_yaml = "0.8"
simplelog = "0.10"

[dev-dependencies]
regex = "1"
