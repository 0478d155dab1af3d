[package]
name = "enteract"
version = "0.1.0"
edition = "2021"
publish = false

[dependencies]
tiktoken-rs = "=0.12.1"
sha2 = "=0.11.1"
chrono = "=0.4.45"
uuid = { version = "=1.29.1", features = ["v4"] }
base64 = "=0.23.1"
pdf-extract = "=0.12.1"
image = { version = "=0.25.10", default-features = false, features = ["png", "jpeg", "gif", "webp", "bmp"] }
serde = { version = "=1.0.229", features = ["derive"] }
serde_json = "=1.0.154"
regex = "=1.13.1"
regex-syntax = "=0.8.11"
rusqlite = { version = "=0.41.1", features = ["bundled"] }
