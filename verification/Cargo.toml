[package]
name = "bol_scraper_empire"
version = "0.1.0"
edition = "2021"
publish = false

[dependencies]
anyhow = "1"
base64 = "*"
clap = { version = "4", features = ["derive"] }
crossterm = "*"
futures = "*"
regex = "1"
reqwest = { version = "*", default-features = false, features = ["rustls-tls"] }
rust_xlsxwriter = "*"
scraper = "*"
serde = { version = "1", features = ["derive"] }
serde_json = "1"
tokio = { version = "1", features = ["rt-multi-thread", "macros"] }
toml = "*"
