[package]
name = "slv"
version = "0.1.0"
edition = "2021"
publish = false

[dependencies]
rand = "0.8"
axum = "0.7"
crossterm = "0.27"
minijinja = "1"
serde = { version = "1", features = ["derive"] }
tokio = { version = "1", features = ["full"] }
