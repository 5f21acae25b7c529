[package]
name = "chia-peer"
version = "0.1.2"
edition = "2021"
publish = false

[dependencies]
chia = "=0.26.0"
chia-protocol = "=0.26.0"
chia-wallet-sdk = { version = "=0.30.0", features = ["native-tls", "peer-simulator"] }
dig-chainsource-interface = "=0.1.0"
rand = "=0.8.8"
tokio = { version = "1", features = ["rt-multi-thread", "sync", "time", "macros"] }
tokio-tungstenite = "=0.24.0"
async-trait = "0.1"
log = "0.4"
thiserror = "2"
