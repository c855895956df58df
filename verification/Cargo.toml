[package]
name = "temperpaw"
version = "0.1.0"
edition = "2021"
publish = false

[dependencies]
anyhow = "=1.0.104"
argon2 = { version = "=0.5.3", features = ["std"] }
serde_json = "=1.0.154"
serde = { version = "=1.0.229", features = ["derive"] }
axum = "=0.8.9"
axum-extra = { version = "=0.10.3", features = ["cookie"] }
tokio = { version = "=1.54.1", features = ["full"] }
jsonwebtoken = "=9.3.1"
base64 = "=0.22.1"
hex = "=0.4.3"
rand = "=0.9.5"
time = "=0.3.55"
tracing = "=0.1.44"
tower-http = { version = "=0.6.11", features = ["fs"] }
opentelemetry = "=0.33.1"
reqwest = { version = "=0.12.28", default-features = false, features = ["json"] }
