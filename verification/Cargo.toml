[package]
name = "librarian"
version = "0.1.0"
edition = "2021"
publish = false

[dependencies]
serde = { version = "*", features = ["derive"] }
serde_json = "*"
serde_yaml = "*"
chrono = "*"
walkdir = "*"
notify = "*"
axum = "*"
tokio = { version = "*", features = ["full"] }
