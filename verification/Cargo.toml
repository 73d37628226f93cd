[package]
name = "cuecard_indexer"
version = "0.1.0"
edition = "2021"
publish = false

[dependencies]
uuid = { version = "1", features = ["v4"] }
walkdir = "2"
filetime = "0.2"
serde = { version = "1", features = ["derive"] }
serde_json = "1"
