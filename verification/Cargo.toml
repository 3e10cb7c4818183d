[package]
name = "ghostline"
version = "0.1.0"
edition = "2021"
publish = false

[dependencies]
bs58 = "0.5"
dirs = "5"
ed25519-dalek = { version = "2", features = ["rand_core"] }
rand = "0.8"
serde = { version = "1", features = ["derive"] }
tokio = { version = "1", features = ["full"] }
uuid = { version = "1", features = ["v4"] }
whoami = "1"
