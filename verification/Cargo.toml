[package]
name = "blockchain_in_rust"
version = "0.1.0"
edition = "2021"
publish = false

[dependencies]
base16ct = { version = "0.2", features = ["alloc"] }
serde = { version = "1", features = ["derive"] }
sha3 = "0.10"
