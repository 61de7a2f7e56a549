[package]
name = "projectm_lambda"
version = "0.1.0"
edition = "2021"
publish = false

[dependencies]
anyhow = "=1.0.104"
chrono = "=0.4.45"
uuid = { version = "=1.27.0", features = ["v4"] }
serde = { version = "=1.0.229", features = ["derive"] }
serde_json = "=1.0.151"
log = "=0.4.34"
env_logger = "=0.11.11"
tempfile = "=3.27.0"
tokio = { version = "=1.53.2", features = ["macros", "rt-multi-thread", "fs", "io-util"] }
reqwest = { version = "=0.12.28", default-features = false }
aws-config = { version = "=1.12.0", default-features = false, features = ["behavior-version-latest"] }
aws-sdk-s3 = { version = "=1.152.0", default-features = false, features = ["behavior-version-latest", "rt-tokio", "http-1x"] }
aws_lambda_events = { version = "=1.2.0", default-features = false, features = ["lambda_function_urls"] }
lambda_runtime = "=1.4.0"
gstreamer = "=0.25.4"
kstring = "=2.0.2"
