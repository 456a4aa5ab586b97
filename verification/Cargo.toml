[package]
name = "ucf_core"
version = "0.1.0"
edition = "2021"
publish = false

[dependencies]
blake3 = "*"
ed25519-dalek = "2"
sha2 = "*"
hex = "*"
