[package]
name = "tts_core"
version = "0.1.0"
edition = "2021"
publish = false

[dependencies]
base64-stream = "*"
dotenv = "*"
reqwest = { version = "*", default-features = false, features = ["blocking", "json", "rustls-tls"] }
serde = { version = "*", features = ["derive"] }
