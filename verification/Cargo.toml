[package]
name = "praxis"
version = "0.1.0"
edition = "2021"
publish = false

[dependencies]
dashmap = "6"
regex = "1"
serde = { version = "1", features = ["derive"] }
serde_yaml = "0.9"
tokio = { version = "1", features = ["sync", "rt"] }
