[package]
name = "workq"
version = "0.1.0"
edition = "2021"
publish = false

[dependencies]
redis = "*"
serde_json = "1"
chrono = "0.4"
dotenv = "0.15"
