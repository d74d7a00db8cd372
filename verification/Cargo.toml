[package]
name = "ref_tools"
version = "0.1.0"
edition = "2021"
publish = false

[dependencies]
anyhow = "*"
chromiumoxide = "*"
chrono = "*"
clap = { version = "*", features = ["derive"] }
futures = "*"
glob = "*"
html2text = "*"
pdf-extract = "*"
scraper = "*"
serde = { version = "*", features = ["derive"] }
serde_json = "*"
serde_yaml = "*"
tokio = { version = "*", features = ["full"] }
url = "*"
