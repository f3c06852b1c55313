[package]
name = "misskey"
version = "0.1.0"
edition = "2021"
publish = false

[dependencies]
serde_json = "1"
serde = { version = "1", features = ["derive"] }
chrono = { version = "0.4", default-features = false, features = ["std"] }
uuid = { version = "1", features = ["v4"] }
async-tungstenite = { version = "*", features = ["async-std-runtime"] }
async-std = "1"
futures = "0.3"
url = "2"
