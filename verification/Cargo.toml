[package]
name = "fs_storage"
version = "0.1.0"
edition = "2021"
publish = false

[dependencies]
serde_json = "1"
clap = { version = "4", features = ["derive"] }
jni = "0.21"
notify = "6"
futures = "0.3"
anyhow = "1"
log = "0.4"
env_logger = "0.11"
home = "0.5"
