[package]
name = "credential_agent"
version = "0.1.0"
edition = "2021"
publish = false

[dependencies]
anyhow = "*"
chrono = { version = "*", features = ["serde"] }
clap = { version = "*", features = ["derive"] }
clap-verbosity-flag = "*"
ctrlc = "*"
env_logger = "*"
jsonwebtoken = "*"
log = "*"
serde = { version = "*", features = ["derive"] }
ureq = { version = "*", features = ["json"] }
