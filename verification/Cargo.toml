[package]
name = "credits"
version = "0.1.0"
edition = "2021"
publish = false

[dependencies]
anyhow = "1"
rand = "0.8"
serde_json = "1"
snarkvm = "0.16"
reqwest = { version = "0.11", default-features = false, features = ["blocking", "json", "rustls-tls"] }
