[package]
name = "cerebus_rex"
version = "0.1.0"
edition = "2021"
publish = false

[dependencies]
uuid = { version = "*", features = ["v4"] }
serde = { version = "*", features = ["derive"] }
serde_json = "*"
tokio = { version = "*", features = ["full"] }
tokio-tungstenite = "*"
futures-util = "*"
tracing = "*"
tracing-subscriber = { version = "*", features = ["env-filter"] }
config = "*"
qdrant-client = "*"
