[package]
name = "volume_sync"
version = "0.1.0"
edition = "2021"
publish = false

[dependencies]
log = "*"
libpulse-binding = "*"
notify = "*"
serde = { version = "*", features = ["derive"] }
toml = "*"
simple_logger = "*"
