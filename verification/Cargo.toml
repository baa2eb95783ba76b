[package]
name = "aou"
version = "0.1.0"
edition = "2021"
publish = false

[dependencies]
anyhow = "1"
matchit = "0.8"
napi = { version = "2", features = ["async", "napi4", "serde-json"] }
napi-derive = "2"
serde = { version = "1", features = ["derive"] }
serde_json = "1"
thiserror = "1"
tokio = { version = "1", features = ["full"] }
tracing = "0.1"
tracing-subscriber = { version = "0.3", features = ["env-filter"] }
