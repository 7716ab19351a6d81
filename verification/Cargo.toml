[package]
name = "advent_of_wasm"
version = "0.1.0"
edition = "2021"
publish = false

[dependencies]
k12 = "*"
base64 = "*"
rusqlite = { version = "*", features = ["bundled"] }
serde = { version = "*", features = ["derive"] }
serde_json = "*"
