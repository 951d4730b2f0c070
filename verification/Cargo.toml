[package]
name = "code-grabber-core"
version = "0.1.0"
edition = "2021"
publish = false

[dependencies]
globset = "0.4"
tiktoken-rs = "*"
dirs = "*"
ignore = "0.4"
serde = { version = "1", features = ["derive"] }
toml = "*"
clap = { version = "4", features = ["derive"] }
anyhow = "1"
arboard = { version = "3", default-features = false }
