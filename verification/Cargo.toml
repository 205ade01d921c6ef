[package]
name = "agromate"
version = "0.1.0"
edition = "2021"
publish = false

[dependencies]
aws-config = "=1.12.0"
aws-sdk-dynamodb = "=1.131.0"
aws-sdk-iotdataplane = "=1.115.0"
aws-sdk-s3 = "=1.152.0"
aws-sdk-sns = "=1.116.0"
# Not used directly: aws-config 1.12 does not compile against aws-types 1.7,
# which a looser requirement would select.
aws-types = "=1.6.0"
chrono = "=0.4.45"
jsonwebtoken = "=9.3.1"
lambda_http = "=0.13.0"
lambda_runtime = "=0.13.0"
serde = { version = "=1.0.229", features = ["derive"] }
serde_json = "=1.0.154"
tokio = { version = "=1.54.1", features = ["macros", "rt-multi-thread"] }
tokio-stream = "=0.1.19"
tracing = "=0.1.44"
tracing-subscriber = "=0.3.23"
