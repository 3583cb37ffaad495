[package]
name = "secret_vpn"
version = "0.1.0"
edition = "2021"
publish = false

[dependencies]
dirs = "*"

[dev-dependencies]
serde_json = "*"
