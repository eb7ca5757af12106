[package]
name = "atproto_oauth"
version = "0.1.0"
edition = "2021"
publish = false

[dependencies]
p256 = { version = "=0.13.2", features = ["ecdsa", "pkcs8", "pem"] }
pkcs8 = "=0.10.2"
elliptic-curve = "=0.13.8"
sha2 = "=0.11.0"
rand = "=0.10.3"
anyhow = "*"
axum = "*"
tokio = { version = "*", features = ["rt-multi-thread", "macros", "net"] }
serde = { version = "*", features = ["derive"] }
serde_json = "*"
hickory-resolver = "*"
redis = "*"
tower-sessions = "=0.14.0"
tower-sessions-redis-store = "=0.16.0"
jose-jwk = "*"
reqwest = { version = "*", default-features = false, features = ["rustls-tls"] }
