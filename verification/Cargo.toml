[package]
name = "coral"
version = "0.1.0"
edition = "2021"
publish = false

[dependencies]
uuid = { version = "1", features = ["v4"] }
rand = "0.8"
redis = { version = "*", features = ["tokio-comp", "connection-manager"] }
tokio = { version = "1", features = ["rt", "macros", "time"] }
chrono = "0.4"
serde_json = "1"
