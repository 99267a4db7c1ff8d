[package]
name = "document_parser"
version = "0.1.0"
edition = "2021"
publish = false

[dependencies]
sha2 = "=0.10.9"
mime_guess = "=2.0.5"
infer = "=0.22.0"
pulldown-cmark = { version = "=0.12.2", default-features = false, features = ["html"] }
scraper = "=0.29.0"
regex = "=1.13.1"
serde = { version = "=1.0.229", features = ["derive"] }
serde_json = "=1.0.154"
json5 = "=0.4.1"
chrono = "=0.4.45"
uuid = { version = "=1.29.0", features = ["v4"] }
anyhow = "=1.0.104"
axum = { version = "=0.7.9", features = ["multipart"] }
tower-http = { version = "=0.5.2", features = ["cors"] }
tokio = { version = "=1.54.1", features = ["rt-multi-thread", "macros", "net", "fs", "sync", "time"] }
tracing = "=0.1.44"
