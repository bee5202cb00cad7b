[package]
name = "sozen_monitor"
version = "0.1.0"
edition = "2021"
publish = false

[dependencies]
scraper = "=0.20.0"
anyhow = "=1.0.104"
tokio = { version = "=1.54.1", features = ["macros", "rt", "rt-multi-thread"] }
serde = { version = "=1.0.229", features = ["derive"] }
serde_json = "=1.0.154"
aws-config = { version = "=1.13.0", features = ["behavior-version-latest"] }
aws-sdk-sesv2 = "=1.145.0"
aws-sdk-ssm = "=1.133.0"
lambda_runtime = "=0.13.0"
tracing = "=0.1.44"
tracing-subscriber = { version = "=0.3.23", features = ["json", "env-filter"] }
reqwest = { version = "0.12", default-features = false, features = ["rustls-tls", "json"] }
