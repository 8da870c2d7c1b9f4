[package]
name = "server_knocker"
version = "0.1.0"
edition = "2021"
publish = false

[dependencies]
shell-words = "1"
tokio = { version = "1", features = ["full"] }
nix = { version = "*", features = ["signal", "process"] }
clap = { version = "4", features = ["derive"] }
anyhow = "1"
log = "0.4"
env_logger = "*"
parse_duration = "2"
