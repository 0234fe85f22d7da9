[package]
name = "media_classifier"
version = "0.1.0"
edition = "2021"
publish = false

[dependencies]
anyhow = "1"
chrono = "0.4"
clap = { version = "4", features = ["derive"] }
comfy-table = "*"
dirs = "*"
kamadak-exif = "*"
log = "0.4"
serde = { version = "1", features = ["derive"] }
serde_yaml_bw = "*"
simplelog = "*"
walkdir = "2"
