[package]
name = "impossible-voice"
version = "0.1.0"
edition = "2021"
publish = false

[dependencies]
axum = { version = "0.8", features = ["multipart", "ws"] }
base64 = "=0.22.1"
bzip2 = "0.6"
clap = { version = "4", features = ["derive"] }
fs2 = "0.4"
futures-util = "0.3"
libloading = "0.8"
prost = "=0.14.4"
prost-types = "=0.14.4"
reqwest = { version = "=0.12.28", default-features = false, features = ["rustls-tls", "stream"] }
serde = { version = "1", features = ["derive"] }
serde_json = "1"
sha2 = "=0.10.9"
tar = "0.4"
tokio = { version = "1", features = ["full"] }
tokio-stream = { version = "0.1", features = ["net"] }
toml = "0.9"
tonic = "=0.14.9"
tonic-health = "=0.14.9"
tonic-prost = "=0.14.9"
tonic-reflection = "=0.14.9"
