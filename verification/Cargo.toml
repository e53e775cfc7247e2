[package]
name = "fiction_archiver"
version = "0.1.0"
edition = "2021"
publish = false

[dependencies]
reqwest = { version = "*", default-features = false }
scraper = "*"
tokio = { version = "*", features = ["full"] }
tokio-tar = "*"
async-compression = { version = "*", features = ["tokio", "brotli"] }
anyhow = "*"
clap = { version = "*", features = ["derive"] }
tracing = "*"
tracing-subscriber = "*"

[dev-dependencies]
regex = "*"
futures = "*"
