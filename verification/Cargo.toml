[package]
name = "ilias_grader"
version = "0.1.0"
edition = "2021"
publish = false

[dependencies]
clap = { version = "4", features = ["derive"] }
dialoguer = { version = "0.11", features = ["fuzzy-select"] }
env_logger = "0.11"
keyring = "3"
log = "0.4"
regex = "1"
reqwest = "0.12"
snafu = "0.8"
tempfile = "3"
zip = "*"
