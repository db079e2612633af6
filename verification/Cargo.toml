[package]
name = "packet_flow"
version = "0.1.0"
edition = "2021"
publish = false

[dependencies]
bincode = "1.3"
chrono = "0.4"
clap = { version = "4", features = ["derive"] }
env_logger = "0.11"
influxdb = { version = "0.7", features = ["derive"] }
log = "0.4"
serde = { version = "1", features = ["derive"] }
thiserror = "2"
tokio = { version = "1", features = ["full"] }
toml = "0.8"
