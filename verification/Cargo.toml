[package]
name = "example_l2"
version = "0.1.0"
edition = "2021"
publish = false

[dependencies]
k256 = { version = "*", features = ["ecdsa"] }
sha2 = "*"
serde = { version = "*", features = ["derive"] }
serde_json = "*"
clap = { version = "*", features = ["derive"] }
rand = "*"
rand_chacha = "*"
