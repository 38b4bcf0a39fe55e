[package]
name = "kingshare"
version = "0.1.0"
edition = "2021"
publish = false

[dependencies]
validator = "*"
uuid = { version = "*", features = ["v4"] }
chrono = "*"
sha2 = "*"
serde = { version = "*", features = ["derive"] }
serde_json = "*"
tokio = { version = "*", features = ["full"] }
axum = { version = "*", features = ["ws"] }
futures-util = "*"
