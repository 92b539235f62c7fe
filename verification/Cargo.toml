[package]
name = "veya"
version = "0.1.0"
edition = "2021"
publish = false

[dependencies]
serde_json = "1"
rusqlite = { version = "*", features = ["bundled"] }
image = { version = "0.25", default-features = false, features = ["png", "bmp"] }
sha2 = "0.10"
