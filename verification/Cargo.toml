[package]
name = "callchain"
version = "0.1.0"
edition = "2021"
publish = false

[dependencies]
alloy-primitives = { version = "1", features = ["rlp", "serde"] }
alloy-rlp = "0.3"
alloy-sol-types = "1"
ed25519-dalek = "2"
revm = { version = "33", default-features = false, features = ["std"] }
revm-precompile = { version = "31", default-features = false, features = ["std"] }
serde = { version = "1", features = ["derive"] }
serde_json = "1"
thiserror = "2"
