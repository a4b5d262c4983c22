[package]
name = "qudis"
version = "0.1.0"
edition = "2021"
publish = false

[dependencies]
actix-web = { version = "=4.18.1", default-features = false, features = ["macros"] }
actix-web-httpauth = "=0.8.3"
aws-config = "=1.12.0"
aws-sdk-s3 = "=1.152.0"
# Held back for aws-config, which does not compile against aws-types 1.7.
aws-types = "~1.6"
base64 = "=0.22.1"
chrono = "=0.4.45"
dotenvy = "=0.15.7"
env_logger = "=0.11.11"
jsonwebtoken = "=9.3.1"
log = "=0.4.34"
serde = { version = "=1.0.229", features = ["derive"] }
sha2 = "=0.10.9"
tokio = { version = "=1.54.1", features = ["macros", "rt-multi-thread", "signal", "time"] }
tokio_schedule = "=0.3.2"
