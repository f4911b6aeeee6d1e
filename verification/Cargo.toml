[package]
name = "witness_host"
version = "0.1.0"
edition = "2021"
publish = false

[dependencies]
hex = "0.4"
alloy-primitives = "0.8"
anyhow = "1"
cargo_metadata = "0.18"
log = "0.4"
tokio = { version = "1", features = ["process", "time", "rt-multi-thread", "macros"] }
clap = { version = "4", features = ["derive"] }
csv = "1"
dotenv = "0.15"
