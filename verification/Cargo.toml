[package]
name = "rubick"
version = "0.1.0"
edition = "2021"
publish = false

[dependencies]
anyhow = "1"
async-std = { version = "1", features = ["attributes"] }
reqwest = { version = "0.12", default-features = false, features = ["stream"] }
rusqlite = { version = "0.32", features = ["bundled", "array"] }
serde = { version = "1", features = ["derive"] }
serde_json = "1"
zip = { version = "2", default-features = false, features = ["deflate"] }
