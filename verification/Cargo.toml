[package]
name = "upload_worker"
version = "0.1.0"
edition = "2021"
publish = false

[dependencies]
uuid = { version = "*", features = ["v4"] }
chrono = "*"
tokio = { version = "*", features = ["full"] }
redis = { version = "*", features = ["tokio-comp", "connection-manager"] }
rand = "*"
