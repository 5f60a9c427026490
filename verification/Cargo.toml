[package]
name = "scene_core"
version = "0.1.0"
edition = "2021"
publish = false

[dependencies]
serde = { version = "*", features = ["derive"] }
serde_json = "*"
http = "*"
tokio = { version = "*", features = ["rt", "sync", "time", "macros"] }
reqwest = { version = "*", default-features = false }
