[package]
name = "brot"
version = "0.1.0"
edition = "2021"
publish = false

[dependencies]
nucleo = "0.5"
regex = "1"
anyhow = "1"
futures = "0.3"
serde = { version = "1", features = ["derive"] }
serde_json = "1"
tokio = { version = "1", features = ["fs", "sync", "rt"] }
toml = "*"
ts-rs = "*"
