[package]
name = "tauri_ipc"
version = "0.1.0"
edition = "2021"
publish = false

[dependencies]
glob = "=0.3.4"
uuid = { version = "=1.29.0", features = ["v4"] }
serde = { version = "=1.0.229", features = ["derive"] }
serde_json = "=1.0.154"
toml = "*"
threadpool = "*"
