[package]
name = "branch_miner"
version = "0.1.0"
edition = "2021"
publish = false

[dependencies]
tiny-keccak = { version = "2.0", features = ["keccak"] }
rand = "0.8"
hex = "0.4"
log = "0.4"
env_logger = "0.11"
num_cpus = "1"
clap = { version = "4", features = ["derive"] }
serde = { version = "1", features = ["derive"] }
serde_json = "1"
askama = "0.12"
