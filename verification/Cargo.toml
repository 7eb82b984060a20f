[package]
name = "chiral_network"
version = "0.1.0"
edition = "2021"
publish = false

[dependencies]
md4 = "0.10"
sha2 = "0.10"
sha3 = "0.10"
hex = "0.4"
secp256k1 = { version = "0.28", features = ["rand-std"] }
rand = "0.8"
serde = { version = "1", features = ["derive"] }
serde_json = "1"
reqwest = { version = "0.11", default-features = false, features = ["json", "rustls-tls"] }
tokio = { version = "1", features = ["rt-multi-thread", "macros", "fs", "io-util", "sync", "time"] }
chrono = "0.4"
once_cell = "1"
tracing = "0.1"
async-trait = "0.1"
ethers = { version = "2", default-features = false }
