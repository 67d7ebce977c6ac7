[package]
name = "vegafusion"
version = "0.1.0"
edition = "2021"
publish = false

[dependencies]
time = { version = "0.3", features = ["local-offset"] }
datafusion = { version = "7.0.0", default-features = false }
datafusion-expr = "7.0.0"
lazy_static = "1"
serde = { version = "1", features = ["derive"] }
serde_json = "1"
