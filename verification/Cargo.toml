[package]
name = "seqrepo"
version = "0.1.0"
edition = "2021"
publish = false

[dependencies]
aws-config = { version = "=1.13.0", default-features = false, features = ["rt-tokio", "default-https-client"] }
aws-sdk-dynamodb = { version = "=1.134.0", default-features = false, features = ["rt-tokio", "default-https-client"] }
axum = { version = "=0.8.9" }
clap = { version = "=4.6.7", features = ["derive"] }
futures = { version = "=0.3.34" }
serde = { version = "=1.0.229", features = ["derive"] }
sqlx = { version = "=0.8.6", default-features = false, features = ["sqlite", "runtime-tokio", "derive"] }
tokio = { version = "=1.54.1", features = ["macros", "rt-multi-thread", "net"] }
