[package]
name = "bestme"
version = "0.1.0"
edition = "2021"
publish = false

[dependencies]
chrono = "0.4"
serde = { version = "1", features = ["derive"] }
serde_json = "1"
toml = "0.8"
directories = "5"
log = "0.4"
env_logger = "0.11"
anyhow = "1"
parking_lot = "0.12"
tokio = { version = "1", features = ["rt-multi-thread", "sync", "macros", "time"] }
