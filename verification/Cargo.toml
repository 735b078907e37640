[package]
name = "lunch_tray"
version = "0.1.0"
edition = "2021"
publish = false

[dependencies]
anyhow = "1"
serde = { version = "1", features = ["derive"] }
serde_json = "1"
time = { version = "0.3", features = ["local-offset", "macros"] }
reqwest = { version = "0.12", default-features = false, features = ["blocking", "rustls-tls"] }
