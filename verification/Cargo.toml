[package]
name = "deeplx-pro"
version = "0.1.0"
edition = "2021"
publish = false

[dependencies]
axum = "=0.8.9"
dotenvy = "=0.15.7"
rand = "=0.8.8"
serde = { version = "=1.0.229", features = ["derive"] }
serde_json = "=1.0.154"
tokio = { version = "=1.54.1", features = ["full"] }
tower-http = { version = "=0.6.11", features = ["cors", "set-header"] }
wreq = { version = "=0.15.3", features = ["json", "cookies", "socks"] }
wreq-util = "=0.1.0"
