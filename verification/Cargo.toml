[package]
name = "yurt"
version = "0.1.0"
edition = "2021"
publish = false

[dependencies]
regex = "1"
whoami = "1"
dirs = "5"
indexmap = { version = "2", features = ["serde"] }
semver = { version = "1", features = ["serde"] }
serde = { version = "1", features = ["derive"] }
serde_yaml = "0.9"
clap = { version = "4", features = ["derive"] }
anyhow = "1"
log = "0.4"
env_logger = "0.11"
minreq = "2"
symlink = "0.1"
git2 = { version = "0.18", default-features = false }
