[package]
name = "config_cache"
version = "0.1.0"
edition = "2021"
publish = false

[dependencies]
async-trait = "0.1"
serde = { version = "1", features = ["derive"] }
tokio = { version = "1", default-features = false, features = ["rt"] }
tracing = "0.1"
