[package]
name = "substrate-subxt"
version = "0.1.0"
edition = "2021"
publish = false

[dependencies]
parity-scale-codec = { version = "=3.7.5", features = ["derive"] }
frame-metadata = { version = "=23.0.1", features = ["legacy"] }
sp-core = { version = "=43.0.0", features = ["serde"] }
sp-crypto-hashing = "=0.1.0"
futures = "=0.3.34"
jsonrpc-core-client = "=18.0.0"
thiserror = "=1.0.69"
serde = { version = "=1.0.229", features = ["derive"] }
log = "=0.4.34"
num-traits = "=0.2.19"
