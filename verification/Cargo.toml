[package]
name = "yaud"
version = "0.1.0"
edition = "2021"
publish = false

[dependencies]
argon2 = "=0.5.3"
chacha20poly1305 = "=0.10.1"
totp-rs = { version = "=5.7.2", features = ["gen_secret"] }
nanoid = "=0.4.0"
openssl = "=0.10.81"
chrono = "=0.4.45"
