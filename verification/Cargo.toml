[package]
name = "voobly_client"
version = "0.1.0"
edition = "2021"
publish = false

[dependencies]
url = "*"
table-extract = "*"
cookie = "*"
reqwest = { version = "=0.12.28", default-features = false, features = ["blocking", "rustls-tls"] }
serde = { version = "*", features = ["derive"] }
serde_json = "*"
