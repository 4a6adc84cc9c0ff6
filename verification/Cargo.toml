[package]
name = "evm"
version = "0.1.0"
edition = "2021"
publish = false

[dependencies]
bytes = "1"
hex = "0.4"
primitive-types = { version = "0.10", default-features = false, features = ["std"] }
sha3 = "0.9"
