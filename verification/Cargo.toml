[package]
name = "balancebeam"
version = "0.1.0"
edition = "2021"
publish = false

[dependencies]
clap = { version = "3", features = ["derive"] }
http = "0.2"
httparse = "1.3"
log = "0.4"
nix = "0.17"
pretty_env_logger = "0.4"
rand = "0.7"
rustyline = "6.1"
tokio = { version = "0.2", features = ["full"] }
