[package]
name = "webpage_scraper"
version = "0.1.0"
edition = "2021"
publish = false

[dependencies]
anyhow = "1"
base64 = "0.22"
clap = { version = "4", features = ["derive"] }
futures = "0.3"
headless_chrome = "1"
pandoc = "0.8"
reqwest = "0.12"
scraper = "*"
serde = { version = "1", features = ["derive"] }
serde_json = "1"
thiserror = "1"
time = { version = "0.3", features = ["local-offset"] }
tokio = { version = "1", features = ["macros", "rt-multi-thread"] }
url = "2"
