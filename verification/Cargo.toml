[package]
name = "zone_sniper"
version = "0.1.0"
edition = "2021"
publish = false

[dependencies]
chrono = "0.4"
serde = { version = "1", features = ["derive"] }
serde_json = "1"
bincode = "1"
anyhow = "1"
log = "0.4"
clap = { version = "4", features = ["derive"] }
tokio = { version = "1", features = ["rt-multi-thread", "macros", "fs", "time", "sync"] }
futures = "0.3"
itertools = "*"
rayon = "1"
strum = "*"
strum_macros = "*"
argminmax = "*"
tokio-tungstenite = "*"
env_logger = { version = "*", default-features = false }
async-trait = "*"
web-time = "*"
binance-sdk = { version = "*", default-features = false, features = ["spot"] }
