[package]
name = "pulse"
version = "0.1.0"
edition = "2021"
publish = false

[dependencies]
regex = "1"
openssl = "0.10"
serde = { version = "1", features = ["derive"] }
serde_json = "1"
chrono = "0.4"
tokio = { version = "1", features = ["full"] }
axum = "0.6"
axum-server = { version = "0.5", features = ["tls-rustls"] }
reqwest = { version = "0.11", features = ["json"] }
