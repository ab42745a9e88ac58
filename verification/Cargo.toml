[package]
name = "cronsched"
version = "0.1.0"
edition = "2021"
publish = false

[dependencies]
chrono = "=0.4.45"
log = "=0.4.35"
tokio = { version = "=1.54.1", features = ["rt", "macros", "sync", "time"] }
env_logger = { version = "0.10", default-features = false }

[dev-dependencies]
rand = "=0.8.8"
