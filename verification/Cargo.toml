[package]
name = "stellar_wrap"
version = "0.1.0"
edition = "2021"
publish = false

[dependencies]
ed25519-dalek = "*"
soroban-sdk = "*"
