[package]
name = "qpp_pipeline"
version = "0.1.0"
edition = "2021"
publish = false

[dependencies]
axum = "0.7"
cobyla = "0.6"
dotenv = "0.15"
qasmsim = "1.3"
serde = { version = "1", features = ["derive"] }
serde_json = "1"
serde-pickle = "1"
tokio = { version = "1", features = ["full"] }
