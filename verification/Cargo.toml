[package]
name = "purifier"
version = "0.1.0"
edition = "2021"
publish = false

[dependencies]
anyhow = "1"
async-trait = "0.1"
aws-arn = "*"
futures = "0.3"
hex = "0.4"
serde = { version = "1", features = ["derive"] }
tokio = { version = "1", features = ["fs", "rt-multi-thread", "macros", "net", "io-util"] }
tokio-postgres = "0.7"
tokio-serde = { version = "*", features = ["bincode"] }
tokio-util = { version = "0.7", features = ["codec"] }
url = "2"
uuid = { version = "1", features = ["v4"] }
