[package]
name = "auth_core"
version = "0.1.0"
edition = "2021"
publish = false

[dependencies]
fernet = { version = "=0.2.2", features = ["fernet_danger_timestamps"] }
base64 = "=0.23.1"
bcrypt = "=0.19.3"
jsonwebtoken = { version = "=11.1.0", features = ["rust_crypto"] }
serde_json = "=1.0.151"
uuid = { version = "=1.27.0", features = ["v4"] }
