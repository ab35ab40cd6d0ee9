[package]
name = "stcp"
version = "0.1.0"
edition = "2021"
publish = false

[dependencies]
aes-gcm = "0.10"
bincode = "1.3"
generic-array = "0.14"
hard = "*"
rand = "0.8"
rsa = { version = "0.7", features = ["serde"] }
serde = { version = "1", features = ["derive"] }
serde_derive = "1"
