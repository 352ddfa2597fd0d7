[package]
name = "sae"
version = "0.1.0"
edition = "2021"
publish = false

[dependencies]
base64 = "0.22"
reqwest = { version = "0.12", features = ["native-tls"] }
serde = { version = "1", features = ["derive"] }
serde_json = "1"
thiserror = "1"
tokio = { version = "1", features = ["full"] }
