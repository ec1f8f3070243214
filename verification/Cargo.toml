[package]
name = "rangeproof"
version = "0.1.0"
edition = "2021"
publish = false

[dependencies]
bulletproofs = { version = "4.0.0", default-features = false, features = ["std"] }
curve25519-dalek-ng = { version = "4", default-features = false, features = ["std", "u64_backend"] }
merlin = "3"
rand = "0.8"
