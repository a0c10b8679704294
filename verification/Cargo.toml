[package]
name = "biblio"
version = "0.1.0"
edition = "2021"
publish = false

[dependencies]
dotenv = "=0.15.0"
google-generative-ai-rs = { version = "=0.3.4", features = ["beta"] }
lopdf = "=0.46.0"
serde = { version = "=1.0.229", features = ["derive"] }
serde_json = "=1.0.154"
tokio = { version = "=1.54.1", features = ["full"] }
