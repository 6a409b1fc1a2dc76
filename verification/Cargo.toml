[package]
name = "egi_rs"
version = "0.1.0"
edition = "2021"
publish = false

[dependencies]
chrono = "0.4"
regex = "1"
serde_json = "1"
csv = "1"
serde = { version = "1", features = ["derive"] }
thiserror = "1"
error-stack = "0.4"
itertools = "0.12"
once_cell = "1"
log = "0.4"
env_logger = "0.11"
clap = { version = "4", features = ["derive"] }
clap-verbosity-flag = "2"
colored = "2"
difflib = "0.4"
glob = "0.3"
inquire = "0.7"
toml = "0.8"
which = "6"
