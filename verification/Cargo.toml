[package]
name = "spectra"
version = "0.1.0"
edition = "2021"
publish = false

[dependencies]
serde = { version = "1", features = ["derive"] }
serde_json = "1"
serde_yaml = "0.9"
rand = "0.8"
rand_chacha = "0.3"
ratatui = "0.29"
crossterm = "0.28"
