[package]
name = "inappbrowser"
version = "0.1.0"
edition = "2021"
publish = false

[dependencies]
serde = { version = "1", features = ["derive"] }
thiserror = "2"
tokio = { version = "1", default-features = false, features = ["sync", "time"] }
url = "2"
tauri = { version = "2", default-features = false }
