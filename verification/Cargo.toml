[package]
name = "eqtune"
version = "0.5.0"
edition = "2021"
publish = false

[dependencies]
anyhow = "1"
arc-swap = "1"
clap = { version = "4", features = ["derive"] }
clap_complete = "4"
libc = "0.2"
serde = { version = "1", features = ["derive"] }
serde_json = "1"
toml = "0.8"
