[package]
name = "arueshalae"
version = "0.1.0"
edition = "2021"
publish = false

[dependencies]
infer = "=0.22.0"
tokio = { version = "*", features = ["full"] }
tokio-util = { version = "=0.7.19", features = ["io"] }
axum = { version = "=0.8.9", features = ["multipart"] }
reqwest = { version = "=0.13.5", default-features = false }
quick-xml = { version = "=0.42.0", features = ["serialize"] }
serde = { version = "*", features = ["derive"] }
serde_json = "*"
sqlx = { version = "=0.9.0", default-features = false, features = ["runtime-tokio", "sqlite"] }
tempfile = "*"
tower-http = { version = "*", features = ["cors"] }
clap = { version = "*", features = ["derive"] }
camino = "*"
anyhow = "*"
tracing = "*"
tracing-subscriber = "*"
