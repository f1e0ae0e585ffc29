[package]
name = "livestore"
version = "0.1.0"
edition = "2021"

[dependencies]
axum = "*"
futures = "*"
tokio = { version = "*", features = ["full"] }
tower = "*"
tower-http = { version = "*", features = ["cors"] }
