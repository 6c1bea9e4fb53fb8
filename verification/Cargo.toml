[package]
name = "authz_core"
version = "0.1.0"
edition = "2021"
publish = false

[dependencies]
uuid = { version = "=1.29.0", features = ["v4", "serde"] }
secrecy = "=0.10.3"
matchit = "=0.8.6"
async-trait = "=0.1.92"
serde = { version = "=1.0.229", features = ["derive"] }
serde_json = "=1.0.154"
thiserror = "=1.0.69"
sea-orm = { version = "=1.1.20", default-features = false, features = ["with-uuid"] }
axum = { version = "=0.7.9", default-features = false }
