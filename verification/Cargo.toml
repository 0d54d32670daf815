[package]
name = "tokio_byteorder"
version = "0.1.0"
edition = "2021"
publish = false

[dependencies]
tokio = { version = "1", features = ["io-util"] }

[dev-dependencies]
byteorder = "1"
