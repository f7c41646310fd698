[package]
name = "ssh-key"
version = "0.1.0"
edition = "2021"
publish = false

[dependencies]
serde = "1"
sha2 = "0.10"
ssh-encoding = { version = "*", features = ["alloc", "base64"] }
