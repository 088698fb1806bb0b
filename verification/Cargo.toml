[package]
name = "cargo_depot"
version = "0.1.0"
edition = "2021"
publish = false

[dependencies]
anyhow = "=1.0.104"
cargo_metadata = "=0.18.1"
cargo-platform = "=0.1.9"
cargo-util-schemas = "=0.7.2"
clap = { version = "=4.6.7", features = ["derive"] }
env_logger = "=0.11.11"
flate2 = "=1.1.10"
itertools = "=0.13.0"
log = "=0.4.34"
serde = { version = "=1.0.229", features = ["derive"] }
serde_json = "=1.0.154"
sha2 = "=0.10.9"
tar = "=0.4.46"
tempfile = "=3.27.0"
toml = "=0.8.23"
ureq = "=2.12.1"
url = "=2.5.8"
