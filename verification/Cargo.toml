[package]
name = "bevy_vn"
version = "0.1.0"
edition = "2021"
publish = false

[dependencies]
zstd = "=0.14.3"
serde = { version = "=1.0.229", features = ["derive"] }
serde_json = "=1.0.154"
ron = "=0.12.3"
clap = { version = "=4.6.7", features = ["derive"] }
walkdir = "=2.5.0"
anyhow = "=1.0.104"
dirs = "*"
memmap2 = "*"
