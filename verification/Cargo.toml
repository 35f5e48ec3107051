[package]
name = "academic_workflow"
version = "0.1.0"
edition = "2021"
publish = false

[dependencies]
ammonia = "=4.2.4"
anyhow = "=1.0.104"
chrono = { version = "=0.4.45", features = ["serde"] }
chrono-tz = "=0.10.4"
email_address = "=0.2.9"
heed = "=0.20.5"
hex = "=0.4.3"
hmac = "=0.12.1"
nanoid = "=0.4.0"
pbkdf2 = "=0.12.2"
rand = "=0.8.8"
regex = "=1.13.1"
serde = { version = "=1.0.229", features = ["derive"] }
serde_json = "=1.0.154"
serde_yaml = "=0.9.34"
sha3 = "=0.10.9"
subtle = "=2.6.1"
thiserror = "=1.0.69"
tokio = { version = "=1.54.1", features = ["process", "io-util", "time", "rt", "macros"] }
tracing = "0.1"
tracing-subscriber = { version = "0.3", features = ["env-filter", "json"] }
unicode-normalization = "=0.1.26"
url = "=2.5.8"
uuid = { version = "=1.29.0", features = ["v4", "serde"] }
