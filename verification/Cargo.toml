[package]
name = "deck"
version = "0.1.0"
edition = "2021"
publish = false

[dependencies]
serde = { version = "*", features = ["derive"] }
serde_json = "*"
jsonpath-rust = "*"
jsonschema = { version = "*", default-features = false }
