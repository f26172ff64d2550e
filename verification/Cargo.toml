[package]
name = "aswitch"
version = "0.1.0"
edition = "2021"
publish = false

[dependencies]
anyhow = "=1.0.104"
base64 = "=0.22.1"
chrono = { version = "=0.4.45", features = ["serde"] }
clap = { version = "=4.6.7", features = ["derive"] }
crossterm = "=0.28.1"
directories = "=5.0.1"
fs2 = "=0.4.3"
glob = "=0.3.4"
ratatui = "=0.29.0"
regex = "=1.13.1"
secret-service = { version = "=4.0.0", features = ["rt-async-io-crypto-rust"] }
serde = { version = "=1.0.229", features = ["derive"] }
serde_json = "=1.0.154"
thiserror = "=1.0.69"
toml = "=0.8.23"
ureq = { version = "=2.12.1", features = ["json"] }
urlencoding = "=2.1.3"
