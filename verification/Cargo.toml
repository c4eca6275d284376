[package]
name = "red_db"
version = "0.1.0"
edition = "2021"
publish = false

[dependencies]
ahash = "*"
arc-swap = "*"
config = "*"
deadpool = "*"
serde = { version = "*", features = ["derive"] }
thiserror = "*"
tokio = { version = "*", features = ["full"] }
tracing = "*"
tracing-subscriber = "*"
