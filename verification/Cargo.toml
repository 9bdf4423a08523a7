[package]
name = "sn_inference"
version = "0.1.0"
edition = "2021"
publish = false

[dependencies]
hex = "0.4"
minijinja = "2"
serde = { version = "1", features = ["derive"] }
serde_json = "1"
thiserror = "2"
tracing = "0.1"
glob = "0.3"
walkdir = "2"
memmap2 = "0.9"
crossbeam = "0.8"
rayon = "1"
once_cell = "1"
tokenizers = { version = "*", default-features = false, features = ["fancy-regex"] }
mlx-rs = "*"
mlx-sys = "*"
