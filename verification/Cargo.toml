[package]
name = "account_abstraction"
version = "0.1.0"
edition = "2021"
publish = false

[dependencies]
multiversx-sc = "*"
multiversx-chain-vm = "*"
num-bigint = "*"

[dev-dependencies]
ed25519-dalek = "*"
