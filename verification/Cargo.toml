[package]
name = "filecoin_webapi"
version = "0.1.0"
edition = "2021"
publish = false

[dependencies]
clap = "2"
env_logger = "0.10"
libc = "0.2"
log = "0.4"
serde = { version = "1", features = ["derive"] }
serde_json = "1"
serde_yaml = "0.8"
