[package]
name = "minimax_client"
version = "0.1.0"
edition = "2021"
publish = false

[dependencies]
serde_json = "=1.0.154"
reqwest = { version = "=0.12.28", default-features = false, features = ["rustls-tls", "json"] }
anyhow = "=1.0.104"
log = "=0.4.35"
