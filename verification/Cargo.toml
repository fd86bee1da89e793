[package]
name = "ip_logger"
version = "0.1.0"
edition = "2021"
publish = false

[dependencies]
chrono = { version = "0.4", default-features = false, features = ["clock", "std"] }
serde_json = "1"
reqwest = { version = "0.11", features = ["blocking"] }
