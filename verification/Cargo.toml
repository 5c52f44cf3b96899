[package]
name = "bls_dkg"
version = "0.1.0"
edition = "2021"
publish = false

[dependencies]
bincode = "1"
err-derive = "0.2"
rand = "0.7"
serde = { version = "1", features = ["derive"] }
serde_derive = "1"
threshold_crypto = "0.4"
xor_name = "1"
