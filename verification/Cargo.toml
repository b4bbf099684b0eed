[package]
name = "hayashi_plugin_sdk"
version = "0.1.0"
edition = "2021"
publish = false

[dependencies]
serde_json = "1"
rand = "*"
arrow = { version = "*", default-features = false, features = ["ffi"] }
