[package]
name = "crypto_engine"
version = "0.1.0"
edition = "2021"
publish = false

[dependencies]
base64 = "=0.13.1"
hex = "=0.4.3"
sha2 = "=0.10.9"
ripemd = "=0.1.3"
k256 = { version = "=0.13.4", features = ["ecdsa", "pem"] }
rand_core = { version = "=0.6.4", features = ["getrandom"] }
