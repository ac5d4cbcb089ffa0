[package]
name = "batch_infer_core"
version = "0.1.0"
edition = "2021"
publish = false

[dependencies]
dashmap = "=6.2.1"
serde_json = "=1.0.151"
serde = { version = "=1.0.229", features = ["derive"] }
tokio = { version = "=1.53.2", features = ["full"] }
axum = { version = "=0.8.9", features = ["ws"] }
bson = { version = "=3.1.0", features = ["serde"] }
futures-util = "=0.3.34"
clap = { version = "=4.6.7", features = ["derive"] }
rand = "=0.10.3"
anyhow = "=1.0.104"
