[package]
name = "stryde_index"
version = "0.1.0"
edition = "2021"
publish = false

[dependencies]
dirs = "=7.0.0"
freedesktop-file-parser = "=0.3.1"
freedesktop-icons = "=0.4.0"
serde = { version = "=1.0.229", features = ["derive"] }
toml = "=1.1.7"
