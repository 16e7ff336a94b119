[package]
name = "kvmux"
version = "0.1.0"
edition = "2021"
publish = false

[dependencies]
mini-redis = "*"
tokio = { version = "*", features = ["full"] }
bytes = "*"
