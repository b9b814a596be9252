[package]
name = "http_registry"
version = "0.1.0"
edition = "2021"
publish = false

[dependencies]
anyhow = "1"
curl = { version = "0.4.44", features = ["http2"] }
http-auth = { version = "0.1.6", default-features = false }
log = "0.4"
serde = { version = "1", features = ["derive"] }
serde_json = "1"
url = "2.2.2"
