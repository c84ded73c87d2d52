[package]
name = "quectel_webui"
version = "0.1.0"
edition = "2021"
publish = false

[dependencies]
anyhow = "1"
async-trait = "0.1"
axum = { version = "0.8", features = ["ws"] }
axum-server = { version = "*", default-features = false, features = ["tls-rustls-no-provider"] }
base64 = "0.22"
certkit = "*"
chrono = "0.4"
clap = { version = "4", features = ["derive"] }
futures = "0.3"
hex = "0.4"
hmac = "*"
mime_guess = "2"
rust-embed = "8"
rustls-rustcrypto = "0.0.2-alpha"
serde = { version = "1", features = ["derive"] }
serde_json = "1"
sha2 = "*"
tokio = { version = "1", features = ["full"] }
