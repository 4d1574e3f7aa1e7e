[package]
name = "policy_tree"
version = "0.1.0"
edition = "2021"
publish = false

[dependencies]
bdk = { version = "=0.28.2", features = ["compiler"] }
bitcoin = { version = "=0.29.2", features = ["serde"] }
serde = { version = "=1.0.229", features = ["derive"] }
serde_json = "=1.0.154"
