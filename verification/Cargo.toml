[package]
name = "kong"
version = "0.8.4"
edition = "2021"
publish = false

[dependencies]
anyhow = "=1.0.104"
cargo-lock = "=10.1.0"
chrono = "=0.4.45"
clap = { version = "=4.6.7", features = ["derive"] }
dirs = "=7.0.0"
flate2 = "=1.1.10"
hex = "=0.4.3"
junction = "=2.1.0"
libc = "=0.2.191"
reqwest = { version = "=0.12.28", default-features = false, features = ["blocking", "json", "rustls-tls"] }
serde = { version = "=1.0.229", features = ["derive"] }
serde_json = "1"
sha2 = "=0.10.9"
tar = "=0.4.46"
tempfile = "=3.27.0"
toml = "=0.8.23"
tracing = "=0.1.44"
tracing-subscriber = { version = "=0.3.23", features = ["env-filter"] }
walkdir = "=2.5.0"
zip = { version = "=9.2.2", default-features = false, features = ["deflate"] }
