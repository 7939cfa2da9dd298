[package]
name = "rink"
version = "0.1.0"
edition = "2021"
publish = false

[dependencies]
textwrap = "0.16"
quick-xml = "0.31"
encoding_rs = "0.8"
zip = { version = "2", default-features = false, features = ["deflate"] }
url = "2"
ratatui = "0.29"
crossterm = "0.28"
dirs = "5"
serde = { version = "1", features = ["derive"] }
serde_json = "1"
walkdir = "2"
anyhow = "1"
reqwest = { version = "0.12", default-features = false, features = ["blocking", "rustls-tls"] }
