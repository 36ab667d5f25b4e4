[package]
name = "swanky"
version = "0.1.0"
edition = "2021"
publish = false

[dependencies]
aes = "*"
sha2 = "*"
blake3 = { version = "*", default-features = false, features = ["std", "pure"] }
rand = "0.8"
serde = { version = "1", features = ["derive"] }
