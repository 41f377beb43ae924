[package]
name = "clique"
version = "0.1.0"
edition = "2021"
publish = false

[dependencies]
uuid = { version = "0.7", features = ["v4"] }
indexmap = "1"
rand = "0.6"
bincode = "1"
serde = { version = "1", features = ["derive"] }
tokio = { version = "1", features = ["full"] }
futures = "0.3"
log = "0.4"
pretty_env_logger = "0.5"
