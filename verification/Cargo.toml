[package]
name = "rmr"
version = "0.1.0"
edition = "2021"
publish = false

[dependencies]
anyhow = "=1.0.104"
axum = { version = "=0.6.20", features = ["headers"] }
axum-util = "=0.2.2"
chrono = { version = "=0.4.45", features = ["serde"] }
clap = { version = "=4.6.7", features = ["derive"] }
defer-lite = "=1.0.0"
env_logger = "=0.10.2"
futures = "=0.3.34"
image = { version = "=0.24.9", default-features = false, features = ["gif", "jpeg", "png", "bmp"] }
indexmap = { version = "=2.14.2", features = ["serde"] }
lazy_static = "=1.5.1"
log = "=0.4.34"
pin-project = "=1.1.13"
prometheus = "=0.13.4"
prometheus_exporter = "=0.8.5"
reqwest = { version = "=0.11.27", features = ["multipart"] }
serde = { version = "=1.0.229", features = ["derive"] }
serde_json = "=1.0.154"
serde_with = { version = "=3.24.0", features = ["base64"] }
serde_yaml = "=0.9.34"
thiserror = "=1.0.69"
tokio = { version = "=1.54.1", features = ["full"] }
tokio-util = { version = "=0.7.20", features = ["io"] }
url = { version = "=2.5.8", features = ["serde"] }
uuid = { version = "=1.29.0", features = ["v4", "serde"] }
webp-animation = "=0.10.0"
