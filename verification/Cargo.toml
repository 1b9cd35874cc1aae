[package]
name = "gitless_sync"
version = "0.1.0"
edition = "2021"
publish = false

[dependencies]
base64 = "*"
chrono = "*"
clap = { version = "*", features = ["derive"] }
rayon = "*"
serde = { version = "*", features = ["derive"] }
serde_json = "*"
similar = "*"
walkdir = "*"
sha1 = "*"
unicode-normalization = "*"
toml = "*"
ignore = "*"

[dev-dependencies]
tempfile = "*"
