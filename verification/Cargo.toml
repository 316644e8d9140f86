[package]
name = "secret_resolution"
version = "0.1.0"
edition = "2021"
publish = false

[dependencies]
serde_json = "*"
aws-config = "*"
aws-sdk-secretsmanager = "*"
tokio = { version = "*", features = ["macros", "rt-multi-thread"] }
