[package]
name = "penguin"
version = "0.1.0"
edition = "2021"
publish = false

[dependencies]
matchit = "*"
regex = "*"
pingora-limits = "*"
humantime = "*"
serde = { version = "*", features = ["derive"] }
serde_yaml = "*"
clap = { version = "*", features = ["derive"] }
config = "*"
env_logger = "*"
log = "*"
hickory-resolver = "*"
async-trait = "*"
bytes = "*"
http = "*"
once_cell = "*"
snafu = "*"
validator = { version = "*", features = ["derive"] }
humantime-serde = "*"
pingora = { version = "*", features = ["proxy", "lb"] }
