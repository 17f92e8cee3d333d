[package]
name = "tower-rate-limiter-redis"
version = "0.1.0"
edition = "2021"
publish = false

[dependencies]
redis = { version = "0.25", features = ["tokio-comp", "aio"] }
tokio = { version = "1", features = ["full"] }
axum = "0.7"
tower = "0.4"
http = "1"
futures = "0.3"
pin-project = "1"
tracing = "0.1"
