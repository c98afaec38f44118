[package]
name = "mirakc_core"
version = "0.1.0"
edition = "2021"
publish = false

[dependencies]
mustache = "*"
serde = { version = "*", features = ["derive"] }
serde_json = "*"
chrono = "*"
