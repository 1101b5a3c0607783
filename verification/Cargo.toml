[package]
name = "hostlink"
version = "0.1.0"
edition = "2021"
publish = false

[dependencies]
ammonia = "4"
reqwest = { version = "0.12", default-features = false, features = ["blocking", "rustls-tls"] }
serde = { version = "1", features = ["derive"] }
serde_json = "1"
url = "2"
