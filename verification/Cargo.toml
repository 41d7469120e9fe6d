[package]
name = "ai_gateway_engine"
version = "0.1.0"
edition = "2021"
publish = false

[dependencies]
async-stream = "*"
async-trait = "*"
axum = "*"
bytes = "*"
chrono = "*"
config = { version = "*", default-features = false, features = ["yaml"] }
dashmap = "*"
futures = "*"
humantime-serde = "*"
reqwest = { version = "*", features = ["json", "stream"] }
serde = { version = "*", features = ["derive"] }
serde_json = "*"
thiserror = "*"
tokio = { version = "*", features = ["full"] }
tower-http = { version = "*", features = ["trace"] }
tracing = "*"
tracing-subscriber = { version = "*", features = ["env-filter"] }
uuid = { version = "*", features = ["v4"] }
