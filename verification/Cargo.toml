[package]
name = "rustars"
version = "0.1.0"
edition = "2021"
publish = false

[dependencies]
cargo_toml = "=1.0.1"
clap = "=4.6.7"
crates_io_api = "=0.12.0"
env_logger = "=0.11.11"
futures = { version = "=0.3.34", features = ["compat"] }
hubcaps = "=0.5.0"
log = "=0.4.34"
tokio = { version = "=1.53.2", features = ["rt-multi-thread"] }
