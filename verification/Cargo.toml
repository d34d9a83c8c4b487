[package]
name = "sapphire"
version = "0.1.0"
edition = "2021"
publish = false

[dependencies]
jiff = "0.2"
regex = "=1.13.1"
serde = { version = "=1.0.229", features = ["derive"] }
serde_json = "=1.0.154"
