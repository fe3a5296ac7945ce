[package]
name = "ccsds"
version = "0.1.0"
edition = "2021"
publish = false

[dependencies]
bytes = "*"
crc = "*"
asynchronous-codec = "*"
tokio-util = { version = "*", features = ["codec"] }
