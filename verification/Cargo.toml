[package]
name = "localbase"
version = "0.1.0"
edition = "2021"
publish = false

[dependencies]
actix-web = { version = "4", default-features = false, features = ["macros"] }
actix-cors = "0.7"
aws-credential-types = "1"
aws-sdk-s3 = { version = "1", default-features = false }
base64 = "0.22"
bytes = "1"
chrono = { version = "0.4", default-features = false, features = ["clock", "std"] }
dotenvy = "0.15"
env_logger = { version = "0.11", default-features = false }
futures-util = { version = "0.3", default-features = false }
log = "0.4"
scylla = "0.15"
serde = { version = "1", features = ["derive"] }
serde_json = "1"
thiserror = "1"
uuid = { version = "1", features = ["v4"] }
