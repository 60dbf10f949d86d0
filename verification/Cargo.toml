[package]
name = "rustystatus"
version = "0.1.0"
edition = "2021"
publish = false

[dependencies]
serde_json = "1"
chrono = "0.4"
serde = { version = "1", features = ["derive"] }
serde_derive = "1"
toml = "*"
dirs = "*"
reqwest = { version = "0.12", default-features = false, features = ["blocking"] }
