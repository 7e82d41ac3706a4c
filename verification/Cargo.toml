[package]
name = "ddk"
version = "0.1.0"
edition = "2021"
publish = false

[dependencies]
anyhow = "=1.0.104"
bdk_esplora = { version = "=0.22.3", default-features = false, features = ["blocking"] }
bdk_wallet = "=3.2.0"
bincode = "=1.3.3"
bitcoin = "=0.32.102"
crossbeam = "=0.8.5"
dlc-manager = "=0.8.0"
dlc-messages = "=0.8.0"
hex = "=0.4.3"
lightning = "=0.0.125"
serde = { version = "=1.0.229", features = ["derive"] }
serde_json = "=1.0.154"
sled = "=0.34.7"
tokio = { version = "=1.54.1", features = ["rt-multi-thread", "time", "macros"] }
tracing = "=0.1.44"
