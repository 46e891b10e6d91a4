[package]
name = "configurator"
version = "0.1.0"
edition = "2021"
publish = false

[dependencies]
figment = "0.10"
schemars = { version = "0.8", features = ["preserve_order"] }
serde_json = "1"
