[package]
name = "hyperlane"
version = "0.1.0"
edition = "2021"
publish = false

[dependencies]
http-type = "*"
tokio = { version = "*", features = ["full"] }
