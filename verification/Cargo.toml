[package]
name = "tribune_archivum"
version = "0.1.0"
edition = "2021"
publish = false

[dependencies]
anyhow = "1"
clap = { version = "4", features = ["derive"] }
epub = "2"
futures = "0.3"
log = "0.4"
pathdiff = "0.2"
quick-xml = { version = "*", features = ["serialize"] }
regex = "1"
reqwest = { version = "0.12", default-features = false, features = ["json", "rustls-tls"] }
scraper = "*"
serde = { version = "1", features = ["derive"] }
serde_json = "1"
tempfile = "3"
thiserror = "*"
tokio = { version = "1", features = ["fs", "macros", "rt-multi-thread"] }
urlencoding = "2"
walkdir = "2"
zip = { version = "*", default-features = false, features = ["deflate"] }
