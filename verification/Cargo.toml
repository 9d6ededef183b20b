[package]
name = "boxer_issuer"
version = "0.1.0"
edition = "2021"
publish = false

[dependencies]
base64 = "=0.23.1"
flate2 = "=1.1.10"
hmac = "=0.12.1"
jwt = "=0.16.0"
sha2 = "=0.10.9"
actix-web = "=4.15.0"
anyhow = "=1.0.104"
async-trait = "=0.1.92"
env_logger = "=0.11.11"
futures-util = "=0.3.34"
jwt-authorizer = "=0.15.0"
log = "=0.4.34"
serde = { version = "=1.0.229", features = ["derive"] }
serde_json = "=1.0.151"
tokio = { version = "=1.53.2", features = ["sync", "time", "rt", "macros"] }
