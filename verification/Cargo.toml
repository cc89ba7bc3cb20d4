[package]
name = "autopush_core"
version = "0.1.0"
edition = "2021"
publish = false

[dependencies]
url = "2"
deadpool = "*"
rusoto_core = { version = "0.47", default-features = false, features = ["rustls"] }
rusoto_dynamodb = { version = "0.47", default-features = false, features = ["rustls"] }
serde_dynamodb = "0.9"
