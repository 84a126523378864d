[package]
name = "try_rs"
version = "0.1.0"
edition = "2021"
publish = false

[dependencies]
anyhow = "1"
chrono = "0.4"
crossterm = "0.28"
dirs = "*"
fuzzy-matcher = "0.3"
libc = "0.2"
ratatui = "0.29"
serde = { version = "1", features = ["derive"] }
toml = "*"

[dev-dependencies]
tempdir = "0.3"
