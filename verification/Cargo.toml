[package]
name = "sys_man_registry"
version = "0.1.0"
edition = "2021"
publish = false

[dependencies]
serde_json = { version = "=1.0.151", features = ["float_roundtrip"] }
