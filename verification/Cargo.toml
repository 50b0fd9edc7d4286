[package]
name = "file_away_flow"
version = "0.1.0"
edition = "2021"
publish = false

[dependencies]
warp = { version = "0.3", default-features = false }
tokio = { version = "1", features = ["macros", "rt-multi-thread"] }
serde = { version = "1", features = ["derive"] }
pretty_env_logger = "*"
