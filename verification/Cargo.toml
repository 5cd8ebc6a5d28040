[package]
name = "trading_core"
version = "0.1.0"
edition = "2021"
publish = false

[dependencies]
chrono = "*"
dotenv = "*"
hex = "*"
hmac = "*"
percent-encoding = "*"
reqwest = { version = "*", default-features = false, features = ["json"] }
serde = { version = "*", features = ["derive"] }
serde_json = "*"
sha2 = "*"
tokio = { version = "*", features = ["full"] }
