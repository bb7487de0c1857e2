[package]
name = "mavir"
version = "0.1.0"
edition = "2021"
publish = false

[dependencies]
tree-sitter = "*"
tree-sitter-java = "*"
streaming-iterator = "*"
zip = { version = "*", default-features = false, features = ["deflate"] }
anyhow = "*"
clap = { version = "*", features = ["derive"] }
env_logger = "*"
log = "*"
