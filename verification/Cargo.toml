[package]
name = "paker"
version = "0.1.0"
edition = "2021"
publish = false

[dependencies]
hmac = "=0.12.1"
sha2 = "=0.10.9"
base64 = "=0.22.1"
rand = "=0.9.5"
chrono = { version = "=0.4.45", default-features = false, features = ["clock", "std"] }
tokio-util = "=0.7.20"
serde = { version = "=1.0.229", features = ["derive"] }
serde_json = "=1.0.154"
uuid = { version = "=1.29.0", features = ["v4"] }
anyhow = "=1.0.104"
thiserror = "=2.0.21"
aes-gcm = "=0.10.3"
argon2 = "=0.5.3"
zeroize = "=1.9.1"
dirs = "=6.0.0"
lru = "0.12"

[dev-dependencies]
