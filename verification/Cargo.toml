[package]
name = "serde_mtproto"
version = "0.1.0"
edition = "2021"
publish = false

[dependencies]
byteorder = "1"
num-traits = "0.2"
serde = { version = "1", features = ["derive"] }
serde_bytes = "0.11"
