[package]
name = "osu2malody_store"
version = "0.1.0"
edition = "2021"
publish = false

[dependencies]
moka = { version = "=0.12.16", features = ["sync"] }
base64 = "=0.22.1"
sha2 = { version = "=0.10.9", features = ["oid"] }
md-5 = "=0.10.6"
rsa = "=0.9.10"
anyhow = "=1.0.104"
serde = { version = "=1.0.229", features = ["derive"] }
serde_yaml = "=0.9.34"
tokio = { version = "=1.54.1", features = ["full"] }
axum = "=0.8.9"
axum-server = { version = "=0.8.0", features = ["tls-rustls"] }
rustls = { version = "=0.23.46", features = ["ring"] }
reqwest = { version = "=0.12.28", default-features = false, features = ["rustls-tls"] }
rosu-v2 = "=0.11.0"
zip = { version = "=9.2.2", default-features = false, features = ["deflate"] }
tracing = "=0.1.44"
tracing-subscriber = { version = "=0.3.23", features = ["env-filter"] }
