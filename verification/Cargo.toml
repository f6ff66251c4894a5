[package]
name = "blog_analytics"
version = "0.1.0"
edition = "2021"
publish = false

[dependencies]
askama = "*"
axum = "0.8"
bcrypt = "*"
chrono = "0.4"
hex = "0.4"
hmac = "0.12"
rusqlite = { version = "*", features = ["bundled"] }
serde = { version = "1", features = ["derive"] }
serde_json = "1"
sha2 = "0.10"
tokio = { version = "1", features = ["full"] }
tower-cookies = "*"
tracing = "0.1"
tracing-subscriber = "0.3"
