[package]
name = "hebbot"
version = "0.1.0"
edition = "2021"
publish = false

[dependencies]
async-process = "=2.5.0"
chrono = { version = "=0.4.45", features = ["serde"] }
log = "=0.4.34"
matrix-sdk = { version = "=0.14.0", default-features = false, features = ["rustls-tls"] }
mime = "=0.3.17"
minijinja = "=2.24.0"
minijinja-contrib = "=2.24.0"
pretty_env_logger = "=0.5.0"
rand = "=0.9.5"
regex = "=1.13.1"
serde = { version = "=1.0.229", features = ["derive"] }
serde_json = "=1.0.154"
time = { version = "=0.3.55", features = ["serde"] }
tokio = { version = "=1.54.1", features = ["rt", "macros"] }
toml = "=0.9.12"
