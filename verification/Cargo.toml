[package]
name = "interprether"
version = "0.1.0"
edition = "2021"
publish = false

[dependencies]
chrono = "0.4"
chrono-humanize = "*"
serde = { version = "1", features = ["derive"] }
serde_json = "1"
serde_qs = "*"
anyhow = "1"
log = "0.4"
env_logger = "*"
dotenv = "*"
tokio = { version = "1", features = ["macros", "rt-multi-thread", "time"] }
deadpool-redis = "*"
once_cell = "1"
rand = "*"
