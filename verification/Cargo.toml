[package]
name = "stryke-aws"
version = "0.2.0"
edition = "2021"
publish = false

[dependencies]
anyhow = "1"
aws-config = { version = "1", features = ["behavior-version-latest"] }
aws-sdk-cloudwatch = "1"
aws-sdk-dynamodb = "1"
aws-sdk-lambda = "1"
aws-sdk-s3 = "1"
aws-sdk-secretsmanager = "1"
aws-sdk-sesv2 = "1"
aws-sdk-sns = "1"
aws-sdk-sqs = "1"
aws-sdk-ssm = "1"
aws-sdk-sts = "1"
aws-smithy-types = "1"
base64 = "0.22"
clap = { version = "4", features = ["derive", "env"] }
once_cell = "1"
parking_lot = "0.12"
serde = { version = "1", features = ["derive"] }
serde_json = "1"
tokio = { version = "1", features = ["fs", "io-std", "io-util", "macros", "rt-multi-thread", "time"] }
