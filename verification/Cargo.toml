[package]
name = "serde_kdl"
version = "0.1.0"
edition = "2021"
publish = false

[dependencies]
kdl = "3.0.0"
serde = "1"

[dev-dependencies]
serde_json = "1"
