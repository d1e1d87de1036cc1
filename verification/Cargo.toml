[package]
name = "foto_sync"
version = "0.1.0"
edition = "2021"
publish = false

[dependencies]
anyhow = "1"
chrono = "0.4"
env_logger = "0.11"
figment = { version = "0.10", features = ["toml", "yaml"] }
log = "0.4"
nom-exif = "2"
serde = { version = "1", features = ["derive"] }
walkdir = "2"
