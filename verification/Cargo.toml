[package]
name = "minichain"
version = "0.1.0"
edition = "2021"
publish = false

[dependencies]
base58 = "0.2"
chrono = "0.4"
p256 = "0.13"
rand_core = { version = "0.6", features = ["getrandom"] }
ripemd = "0.1"
sha256 = "1"
