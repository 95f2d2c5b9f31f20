[package]
name = "tuff_core"
version = "0.1.0"
edition = "2021"
publish = false

[dependencies]
sha2 = "0.10"
rand = "0.8"
aes = "0.8"
nix = { version = "0.29", features = ["mount", "process"] }
tokio = { version = "1", features = ["macros", "rt", "time"] }
anyhow = "1"
clap = { version = "4", features = ["derive"] }
dialoguer = "0.11"
serde = { version = "1", features = ["derive"] }
serde_json = "1"
log = "0.4"
env_logger = "0.11"
