[package]
name = "psv"
version = "0.1.0"
edition = "2021"
publish = false

[dependencies]
scraper = { version = "=0.19.1", features = ["deterministic"] }
lol_html = "=1.2.1"
openssl = "=0.10.82"
regex = "=1.13.1"
rand = "=0.8.8"
axum = "=0.6.20"
axum-server = { version = "=0.5.1", features = ["tls-rustls"] }
tokio = { version = "=1.54.1", features = ["full"] }
reqwest = "=0.11.27"
serde = { version = "=1.0.229", features = ["derive"] }
serde_json = "=1.0.154"
chrono = "=0.4.45"
semver = "=1.0.28"
