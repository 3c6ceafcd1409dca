[package]
name = "midas"
version = "0.1.0"
edition = "2021"
publish = false

[dependencies]
http = "1"
url = "2"
serde = { version = "1", features = ["derive"] }
serde_json = "1"
serde_yaml = "0.9"
rmp-serde = "1"
redis = "*"
