[package]
name = "observ"
version = "0.1.0"
edition = "2021"
publish = false

[dependencies]
pbkdf2 = "*"
sha2 = "*"
hmac = "*"
rand = "*"
chrono = "*"
