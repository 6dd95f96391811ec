[package]
name = "rolegate"
version = "0.1.0"
edition = "2021"
publish = false

[dependencies]
argon2rs = "*"
base64 = "*"
hmac = "*"
sha2 = "*"
subtle = "*"
