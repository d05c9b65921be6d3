[package]
name = "search_stream"
version = "0.1.0"
edition = "2021"
publish = false

[dependencies]
reqwest = { version = "0.12", default-features = false, features = ["blocking", "json"] }
serde = { version = "1", default-features = false, features = ["derive", "std"] }
tauri = { version = "2", default-features = false, features = ["wry"] }
