[package]
name = "mutsuki-tauri-host"
version = "0.1.0"
edition = "2021"
publish = false

[dependencies]
cpu-time = "1"
dirs = "6"
mime_guess = "2"
parking_lot = "0.12"
serde = { version = "1", features = ["derive"] }
serde_json = "1"
sha2 = "0.10"
tauri = { version = "2", default-features = false }
tempfile = "3"
thiserror = "2"
tokio = { version = "1", features = ["full"] }
toml = "0.9"
uuid = { version = "1", features = ["v4"] }
