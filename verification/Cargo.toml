[package]
name = "x_gettsu"
version = "0.1.0"
edition = "2021"
publish = false

[dependencies]
regex = "1.13.1"
serde = { version = "1.0.229", features = ["derive"] }
serde_json = "1.0.154"
tauri = { version = "2.12.5", default-features = false, features = ["wry"] }
futures-util = "0.3.34"
