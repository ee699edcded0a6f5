[package]
name = "minibrowser"
version = "0.2.0"
edition = "2021"
publish = false

[dependencies]
url = "2.5"
serde = { version = "1", features = ["derive"] }
serde_json = "1"
