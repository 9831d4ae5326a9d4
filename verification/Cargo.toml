[package]
name = "jobqueue"
version = "0.1.0"
edition = "2021"
publish = false

[dependencies]
uuid = { version = "1", features = ["v4"] }
chrono = "0.4"
redis = { version = "*", features = ["tokio-comp"] }
tokio = { version = "1", features = ["full"] }
serde_json = "1"
