[package]
name = "explorer_core"
version = "0.1.0"
edition = "2021"
publish = false

[dependencies]
dirs = "*"
rusqlite = { version = "*", features = ["bundled"] }
serde = { version = "*", features = ["derive"] }
