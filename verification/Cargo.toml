[package]
name = "mbo_statistical_profiler"
version = "0.1.0"
edition = "2021"
publish = false

[dependencies]
ahash = "0.8"
serde = { version = "1", features = ["derive"] }
serde_json = "1"
toml = "0.8"
log = "0.4"
env_logger = "0.11"
