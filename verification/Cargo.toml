[package]
name = "ebook_playback"
version = "0.1.0"
edition = "2021"
publish = false

[dependencies]
uuid = { version = "1", features = ["v4"] }
html2text = "*"
serde = { version = "1", features = ["derive"] }
serde_json = "1"
walkdir = "2"
tokio = { version = "1", features = ["rt-multi-thread", "sync", "macros"] }
anyhow = "1"
tracing = "0.1"
rusqlite = "0.31"
dirs-next = "2"
epub = "1.2"
mobi = "0.8"
pdf-extract = "0.7"
rodio = { version = "0.19", default-features = false }
