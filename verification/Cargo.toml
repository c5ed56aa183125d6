[package]
name = "document_converter"
version = "0.1.0"
edition = "2021"
publish = false

[dependencies]
base64 = "=0.22.1"
image = { version = "=0.24.9", default-features = false, features = ["jpeg", "png", "webp"] }
lopdf = { version = "=0.46.0", default-features = false }
pdf-writer = "=0.15.0"
uuid = { version = "=1.29.0", features = ["v4"] }
actix-web = { version = "=4.18.1", default-features = false, features = ["macros"] }
actix-cors = "=0.7.2"
serde = { version = "=1.0.229", features = ["derive"] }
serde_json = "=1.0.154"
chrono = "=0.4.45"
env_logger = "=0.11.11"
log = "=0.4.34"
thiserror = "=1.0.69"
