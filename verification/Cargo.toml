[package]
name = "token_broker"
version = "0.1.0"
edition = "2021"
publish = false

[dependencies]
axum = "=0.7.9"
axum-auth = "=0.7.0"
clap = { version = "=4.6.7", features = ["derive"] }
color-eyre = "=0.6.5"
dyn-clone = "=1.0.20"
env_logger = "=0.11.11"
jsonwebtoken = "=9.3.1"
log = "=0.4.34"
oauth2 = "=4.4.2"
redact = "=0.1.11"
reqwest = { version = "=0.11.27", default-features = false, features = ["json", "rustls-tls"] }
serde = { version = "=1.0.229", features = ["derive"] }
tokio = { version = "=1.54.1", features = ["macros", "net", "rt-multi-thread", "time"] }
toml = "=0.8.23"
