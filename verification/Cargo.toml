[package]
name = "unidpp-gateway"
version = "0.1.0"
edition = "2021"
publish = false

[dependencies]
axum = "0.8"
serde_json = "1"
tokio = { version = "1", features = ["net", "rt-multi-thread", "macros", "sync", "time", "io-util"] }
