[package]
name = "okx_api_client"
version = "0.1.0"
edition = "2021"
publish = false

[dependencies]
anyhow = "1"
base64 = "0.13"
chrono = "0.4"
clap = "3"
dotenv = "0.15"
hmac = "0.11"
reqwest = { version = "0.11", features = ["json"] }
serde = { version = "1", features = ["derive"] }
serde_json = "1"
sha2 = "0.9"
tokio = { version = "1", features = ["rt-multi-thread", "time"] }
