[package]
name = "sample_api"
version = "0.1.0"
edition = "2021"
publish = false

[dependencies]
regex = "1"
convert_case = "*"
time = { version = "0.3", features = ["parsing", "formatting", "serde"] }
sqlx = { version = "*", default-features = false, features = ["postgres", "runtime-tokio", "time", "rust_decimal", "derive"] }
tokio = { version = "1", features = ["macros", "rt-multi-thread"] }
lambda_http = "*"
lambda_runtime = "*"
aws-config = "1"
aws-sdk-secretsmanager = "1"
serde = { version = "1", features = ["derive"] }
serde_json = "1"
serde_with = "*"
serde_trim = "*"
validator = { version = "*", features = ["derive"] }
tracing = "0.1"
tracing-subscriber = "0.3"
rust_decimal = "1"
