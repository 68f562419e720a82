[package]
name = "marketstate-codex-connector"
version = "0.1.0"
edition = "2021"
publish = false

[dependencies]
serde = { version = "1", features = ["derive"] }
serde_json = "1"
tauri = { version = "2", default-features = false, features = ["tray-icon", "wry"] }
uuid = { version = "1", features = ["v4"] }
