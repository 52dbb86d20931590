[package]
name = "vault"
version = "0.1.0"
edition = "2021"
publish = false

[dependencies]
argon2 = "0.5"
chacha20poly1305 = "0.10"
ciborium = "0.2"
hkdf = "0.12"
hmac = "0.12"
sha2 = "0.10"
zeroize = "1"
rand = "0.8"
uuid = { version = "1", features = ["v4"] }
rpassword = "7"
arboard = { version = "3", default-features = false }
clap = { version = "4", features = ["derive"] }
