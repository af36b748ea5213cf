[package]
name = "brotli_lines"
version = "0.1.0"
edition = "2021"
publish = false

[dependencies]
base64 = "*"
brotli = "*"
anyhow = "*"
clap = { version = "*", features = ["derive"] }
log = "*"
pretty_env_logger = "*"
