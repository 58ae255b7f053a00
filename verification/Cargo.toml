[package]
name = "cendre_backend"
version = "0.1.0"
edition = "2021"
publish = false

[dependencies]
uuid = { version = "*", features = ["v4"] }
base64 = "*"
time = "*"
axum = "*"
tokio = { version = "*", features = ["full"] }
redis = { version = "*", features = ["tokio-comp", "connection-manager"] }
serde = { version = "*", features = ["derive"] }
serde_json = "*"
async-trait = "*"
tracing = "*"
tracing-subscriber = { version = "*", features = ["env-filter"] }
