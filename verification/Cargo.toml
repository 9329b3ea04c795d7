[package]
name = "modern_sender"
version = "0.1.0"
edition = "2021"
publish = false

[dependencies]
unicode-segmentation = "1"
serde = { version = "1", features = ["derive"] }
serde_json = "1"
ron = "*"
anyhow = "1"
axum = "*"
tokio = { version = "1", features = ["rt", "net", "time", "macros", "sync"] }
