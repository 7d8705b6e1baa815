[package]
name = "s3rs"
version = "0.1.0"
edition = "2021"
publish = false

[dependencies]
sha2 = "0.10"
hmac = "0.12"
chrono = "0.4"
log = "0.4"
toml = "0.8"
serde = { version = "1", features = ["derive"] }
reqwest = { version = "0.12", default-features = false, features = ["blocking"] }
interactor = "*"
