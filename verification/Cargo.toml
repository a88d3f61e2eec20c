[package]
name = "tts-rs"
version = "0.1.0"
edition = "2021"
publish = false

[dependencies]
async-channel = "=2.5.0"
aws-config = "=1.13.0"
aws-sdk-s3 = "=1.157.0"
axum = "=0.8.9"
clap = { version = "=4.6.7", features = ["derive"] }
espeakng = "=0.2.0"
hound = "=3.5.1"
indicatif = "=0.18.6"
mimalloc = "=0.1.52"
misaki-rs = { version = "=0.8.0", default-features = false }
mp3lame-encoder = { version = "=0.2.5", features = ["std"] }
ort = { version = "=2.0.0-rc.15", default-features = false, features = ["std", "ndarray", "load-dynamic"] }
redis = { version = "=1.8.1", features = ["tokio-comp", "connection-manager"] }
reqwest = { version = "=0.12.28", default-features = false, features = ["blocking", "rustls-tls"] }
serde = { version = "=1.0.229", features = ["derive"] }
serde_json = { version = "=1.0.154", features = ["raw_value"] }
thiserror = "=2.0.21"
tokio = { version = "=1.54.1", features = ["full"] }
tower-http = { version = "=0.6.11", features = ["cors", "trace"] }
tracing = "=0.1.44"
tracing-subscriber = { version = "=0.3.23", features = ["env-filter"] }
url = "=2.5.8"
uuid = { version = "=1.29.0", features = ["v4"] }
