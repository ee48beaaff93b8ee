[package]
name = "fix_engine"
version = "0.1.0"
edition = "2021"
publish = false

[dependencies]
bytes = "*"
chrono = "*"
config = "*"
tokio = { version = "*", features = ["full"] }
tokio-util = { version = "*", features = ["codec"] }
