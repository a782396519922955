[package]
name = "radium_textures"
version = "1.0.0"
edition = "2021"
publish = false

[dependencies]
anyhow = "1"
ba2 = "*"
byteorder = "1"
clap = { version = "4", features = ["derive"] }
crossbeam-channel = "0.5"
dirs = "*"
env_logger = "0.11"
indicatif = "0.17"
log = "0.4"
lz4 = "1"
num_cpus = "1"
rayon = "1"
serde = { version = "1", features = ["derive"] }
serde_json = "1"
unicode-normalization = "0.1"
walkdir = "2"
