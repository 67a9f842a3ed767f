[package]
name = "rodin"
version = "0.1.0"
edition = "2021"
publish = false

[dependencies]
rand = "*"
minify-html = "*"
tokio = { version = "*", features = ["full"] }
axum = "*"
serde = { version = "*", features = ["derive"] }
serde_json = "*"
anyhow = "*"
futures = "*"
tower = "*"
tower-http = { version = "*", features = ["compression-gzip", "fs"] }
tracing = "*"
tracing-subscriber = { version = "*", features = ["env-filter"] }
