[package]
name = "teledump"
version = "0.1.0"
edition = "2021"
publish = false

[dependencies]
mime = "=0.3.17"
anyhow = "*"
log = "*"
env_logger = "*"
dotenvy = "*"
shellexpand = "*"
tokio = { version = "=1.53.2", features = ["full"] }
grammers-client = "=0.6.0"
grammers-session = "=0.5.2"
sea-orm = { version = "=2.0.4", features = ["sqlx-sqlite", "runtime-tokio-rustls", "macros"] }
