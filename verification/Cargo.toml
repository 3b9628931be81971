[package]
name = "xor_hash"
version = "0.1.0"
edition = "2021"
publish = false

[dev-dependencies]
quickcheck = { version = "1.0", default-features = false }
