[package]
name = "http_dispatch"
version = "0.1.0"
edition = "2021"
publish = false

[dependencies]
axum = "0.4"
base64 = "0.13"
form_urlencoded = "1"
serde_json = "1"
tokio = { version = "1", features = ["macros", "rt-multi-thread", "signal"] }
