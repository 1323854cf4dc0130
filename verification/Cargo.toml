[package]
name = "manifest-filter"
version = "0.1.0"
edition = "2021"
publish = false

[dependencies]
m3u8-rs = "5"
axum = "0.6"
serde = { version = "1", features = ["derive"] }
tokio = { version = "1", features = ["full"] }
tracing = "0.1"
tracing-subscriber = "0.3"
