[package]
name = "ommp"
version = "0.1.0"
edition = "2021"
publish = false

[dependencies]
anyhow = "*"
crossbeam-channel = "*"
crossterm = "*"
lofty = "*"
notify = "*"
rand = "0.8"
ratatui = "*"
rodio = "*"
serde = { version = "*", features = ["derive"] }
serde_json = "*"
symphonia = { version = "0.5", features = ["all"] }
unicode-width = "*"
walkdir = "*"
