[package]
name = "vibra"
version = "0.1.0"
edition = "2021"
publish = false

[dependencies]
aes-gcm = "=0.10.3"
env_logger = "=0.11.11"
log = "=0.4.34"
lru = { version = "=0.12.5", default-features = false }
rand = "=0.8.8"
serde = { version = "=1.0.229", features = ["derive"] }
serde_json = "=1.0.151"
sled = "=0.34.7"
toml = "=0.8.23"

[dev-dependencies]
tempfile = "=3.27.0"
