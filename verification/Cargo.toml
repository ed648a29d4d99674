[package]
name = "uniclipboard"
version = "0.1.1"
edition = "2021"
publish = false

[dependencies]
sha2 = "=0.10.9"
hex = "=0.4.3"
aes-gcm = "=0.10.3"
rand = "=0.8.5"
chrono = { version = "=0.4.45", features = ["serde"] }
serde = { version = "=1.0.229", features = ["derive"] }
serde_json = "=1.0.154"
toml = "=1.1.8"
dirs = "=7.0.0"
once_cell = "=1.21.4"
tokio = { version = "=1.54.1", features = ["full"] }
clap = { version = "=4.6.7", features = ["derive"] }
console = "=0.16.6"
dialoguer = "=0.12.0"
log = "=0.4.35"
env_logger = "=0.11.11"
anyhow = "=1.0.104"
async-trait = "=0.1.92"
bytes = "=1.12.1"
base64 = "=0.22.1"
warp = "=0.3.7"
tokio-tungstenite = "=0.21.0"
futures = "=0.3.34"
futures-util = "=0.3.34"
rusqlite = { version = "=0.41.1", features = ["bundled"] }
clipboard-rs = "=0.3.5"
