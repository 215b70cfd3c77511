[package]
name = "udap"
version = "0.1.0"
edition = "2021"
publish = false

[dependencies]
probe-rs = "*"
serde = { version = "1", features = ["derive"] }
