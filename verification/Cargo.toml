[package]
name = "fas_rs"
version = "0.1.0"
edition = "2021"
publish = false

[dependencies]
anyhow = "1"
likely_stable = "*"
log = "0.4"
parking_lot = "0.12"
toml = "0.8"
