[package]
name = "channel"
version = "0.1.0"
edition = "2021"
publish = false

[dependencies]
actix = "=0.13.5"
futures = "=0.3.34"
log = "=0.4.35"
redis = { version = "=0.21.8", features = ["tokio-comp"] }
serde = { version = "=1.0.229", features = ["derive"] }
serde_json = "=1.0.154"
# Not used directly. sp-core, which subxt brings, is built on schnorrkel 0.9 and
# does not compile with substrate-bip39 0.4.6, which is built on schnorrkel 0.11.
substrate-bip39 = "=0.4.4"
subxt = "=0.21.0"
