[package]
name = "yog"
version = "0.1.0"
edition = "2021"
publish = false

[dependencies]
sha2 = "=0.10.9"
serde = { version = "=1.0.229", features = ["derive"] }
serde_json = "=1.0.154"
clap = { version = "=4.6.7", features = ["derive"] }
anyhow = "=1.0.104"
tempfile = "=3.27.0"
toml = "*"
walkdir = "*"
rustix = { version = "*", features = ["fs"] }
plotters = { version = "0.3", default-features = false, features = ["svg_backend", "bitmap_backend", "bitmap_encoder", "line_series"] }
