[package]
name = "hyle"
version = "0.1.0"
edition = "2021"
publish = false

[dependencies]
anyhow = "1"
anymap = "0.12"
axum = "0.8"
blst = "0.3"
borsh = { version = "1", features = ["derive"] }
futures = "0.3"
rand = "0.8"
ron = "0.8"
secp256k1 = "0.30"
serde = { version = "1", features = ["derive"] }
serde_json = "1"
sha3 = "0.10"
tokio = { version = "1", features = ["sync", "rt", "rt-multi-thread", "macros", "time", "signal", "fs"] }
tracing = "0.1"
utoipa = "5"
