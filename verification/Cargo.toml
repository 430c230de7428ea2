[package]
name = "vym_fyi"
version = "0.1.0"
edition = "2021"
publish = false

[dependencies]
rand = "*"
chrono = { version = "*", default-features = false, features = ["std"] }
serde = { version = "*", features = ["derive"] }
serde_yaml = "*"
