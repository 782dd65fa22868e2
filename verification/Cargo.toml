[package]
name = "archivist"
version = "0.1.0"
edition = "2021"
publish = false

[dependencies]
nanoid = "0.3"
serde = { version = "1", features = ["derive"] }
serde_yaml = "0.8"
telegram-bot = "0.8"
tokio = { version = "0.2", features = ["full"] }
futures = "0.3"
