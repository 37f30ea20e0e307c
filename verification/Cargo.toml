[package]
name = "checkflac"
version = "0.1.0"
edition = "2021"
publish = false

[dependencies]
anyhow = "*"
chrono = "*"
clap = { version = "*", features = ["derive"] }
claxon = "*"
colored = "*"
indicatif = "*"
md-5 = "*"
num_cpus = "*"
rayon = "*"
serde = { version = "*", features = ["derive"] }
serde_json = "*"
walkdir = "*"
