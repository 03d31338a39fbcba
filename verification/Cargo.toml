[package]
name = "iot_ingest"
version = "0.1.0"
edition = "2021"
publish = false

[dependencies]
hex = "*"
serde = { version = "*", features = ["derive"] }
serde_json = "*"
chrono = "*"
tokio = { version = "*", features = ["full"] }
sqlx = { version = "*", features = ["mysql", "runtime-tokio"] }
futures = "*"
tracing = "*"
tracing-subscriber = "*"
aws-config = "*"
aws-sdk-s3 = "*"
lambda_runtime = "*"
aws_lambda_events = "*"
