[package]
name = "stt_pipeline"
version = "0.1.0"
edition = "2021"
publish = false

[dependencies]
anyhow = "1"
aws-config = "*"
aws-sdk-s3 = "*"
clap = { version = "4", features = ["derive"] }
env_logger = "*"
error-chain = "0.12"
indicatif = "0.17"
log = "0.4"
rayon = "1"
reqwest = "0.11"
serde = { version = "1", features = ["derive"] }
serde_json = "1"
tokio = { version = "1", features = ["macros", "rt-multi-thread"] }
walkdir = "2"
