[package]
name = "mail_relay"
version = "0.1.0"
edition = "2021"
publish = false

[dependencies]
base64 = "=0.22.1"
markdown = "=1.0.0"
handlebars = "=6.4.4"
serde = { version = "=1.0.229", features = ["derive"] }
serde_json = "=1.0.154"
actix-web = "=4.18.1"
actix-cors = "=0.7.2"
aws-config = "=1.12.0"
aws-sdk-sesv2 = "=1.140.1"
# aws-config 1.12 does not build against aws-types 1.7.
aws-types = "=1.6.0"
reqwest = "=0.13.5"
env_logger = "=0.11.11"
log = "=0.4.34"
