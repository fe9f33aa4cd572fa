[package]
name = "serverless_redis"
version = "0.1.0"
edition = "2021"
publish = false

[dependencies]
axum = "*"
base64 = "*"
serde_json = "1"
