[package]
name = "game_session"
version = "0.1.0"
edition = "2021"
publish = false

[dependencies]
shakmaty = "=0.27.3"
anyhow = "=1.0.104"
log = "=0.4.34"
env_logger = "=0.11.11"
tokio = { version = "=1.54.1", features = ["rt", "sync"] }
sqlx = { version = "=0.7.4", default-features = false, features = ["sqlite", "runtime-tokio"] }
grammers-client = "=0.10.0"
grammers-session = "=0.10.0"
grammers-mtsender = "=0.10.0"
