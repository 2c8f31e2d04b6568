[package]
name = "loqa_meetings"
version = "0.1.0"
edition = "2021"
publish = false

[dependencies]
anyhow = "*"
async-nats = "=0.50.0"
async-trait = "*"
axum = "=0.8.9"
base64 = "=0.23.1"
chrono = "=0.4.45"
config = { version = "=0.15.27", default-features = false, features = ["toml"] }
futures = "*"
hound = "=3.5.1"
serde = { version = "*", features = ["derive"] }
serde_json = "*"
symphonia = "=0.5.5"
tokio = { version = "=1.53.2", features = ["full"] }
tower-http = { version = "=0.7.1", features = ["trace"] }
tracing = "*"
tracing-subscriber = "*"
uuid = { version = "=1.27.0", features = ["v4"] }
