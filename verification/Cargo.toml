[package]
name = "ao3_embed"
version = "0.1.0"
edition = "2021"
publish = false

[dependencies]
moka = { version = "0.12", features = ["sync", "future"] }
urlencoding = "2"
minify-html = "*"
axum = { version = "0.6", features = ["headers"] }
tokio = { version = "1", features = ["full"] }
reqwest = { version = "0.11", default-features = false }
scraper = "*"
isbot = "*"
tower-http = { version = "0.4", features = ["normalize-path"] }
tracing = "0.1"
tracing-subscriber = "0.3"
serde = { version = "1", features = ["derive"] }
