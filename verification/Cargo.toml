[package]
name = "alkane"
version = "0.1.0"
edition = "2021"
publish = false

[dependencies]
clap = { version = "4", features = ["derive"] }
env_logger = "0.10"
lazy_static = "1"
limiting-factor = "*"
log = "0.4"
rocket = "0.4"
rocket_codegen = "0.4"
serde = { version = "1", features = ["derive"] }
serde_yaml = "0.9"
