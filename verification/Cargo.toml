[package]
name = "rengo_server"
version = "0.1.0"
edition = "2021"
publish = false

[dependencies]
anyhow = "=1.0.104"
async-tungstenite = { version = "=0.8.0", default-features = false }
bincode = "=1.3.3"
env_logger = "=0.7.1"
futures = "=0.3.34"
log = "=0.4.35"
num_cpus = "=1.17.0"
serde = { version = "=1.0.229", features = ["derive"] }
smol = "=0.1.18"
tungstenite = { version = "=0.11.1", default-features = false }
