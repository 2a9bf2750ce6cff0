[package]
name = "cosmic_altswitcher"
version = "0.1.0"
edition = "2021"
publish = false

[dependencies]
calloop = "0.14"
calloop-wayland-source = "0.4"
clap = { version = "4", features = ["derive"] }
env_logger = "0.11"
futures = "0.3"
log = "0.4"
serde = { version = "1", features = ["derive"] }
serde_json = "1"
tokio = { version = "1", features = ["time"] }
