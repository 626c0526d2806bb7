[package]
name = "podcast_feed"
version = "0.1.0"
edition = "2021"
publish = false

[dependencies]
uuid = { version = "*", features = ["v4"] }
serde = { version = "*", features = ["derive"] }
serde_json = "*"
actix-web = "*"
actix-cors = "*"
actix-multipart = "*"
aws-sdk-s3 = "*"
aws-credential-types = "*"
sqlx = { version = "*", features = ["runtime-tokio", "postgres", "uuid"] }
tokio = { version = "*", features = ["macros", "rt-multi-thread"] }
futures = "*"
config = "*"
env_logger = "*"
log = "*"
mime = "*"
