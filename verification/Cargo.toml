[package]
name = "service_scan"
version = "0.1.0"
edition = "2021"
publish = false

[dependencies]
chrono = { version = "0.4", features = ["serde"] }
rand = "0.8"
reqwest = { version = "0.11", default-features = false }
rocket = { version = "0.5", features = ["json"] }
