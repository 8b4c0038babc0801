[package]
name = "rqcheck"
version = "0.1.0"
edition = "2021"
publish = false

[dependencies]
semver = "=1.0.28"
requirements = "=0.3.0"
toml = "=0.8.23"
serde = { version = "=1.0.229", features = ["derive"] }
reqwest = { version = "=0.12.28", default-features = false, features = ["json", "rustls-tls"] }
tokio = { version = "=1.54.1", features = ["rt-multi-thread", "macros", "time"] }
futures = "=0.3.34"
log = "=0.4.35"
env_logger = "=0.11.11"
clap = { version = "=4.6.7", features = ["derive"] }
