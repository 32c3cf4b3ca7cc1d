[package]
name = "tendermint"
version = "0.1.0"
edition = "2021"
publish = false

[dependencies]
ed25519-dalek = "=1.0.1"
serde = { version = "=1.0.229", features = ["derive"] }
signatory = { version = "=0.19.0", features = ["ed25519"] }
subtle-encoding = "=0.5.1"
zeroize = "=1.3.0"
