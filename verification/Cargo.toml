[package]
name = "evm"
version = "0.1.0"
edition = "2021"
publish = false

[dependencies]
primitive-types = "0.12"
arrow-buffer = "*"
sha3 = "0.10"
hex = "0.4"
serde = { version = "1", features = ["derive"] }
serde_json = "1"
colored = "2"
