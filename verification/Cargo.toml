[package]
name = "codex-tui"
version = "0.1.0"
edition = "2021"
publish = false

[dependencies]
regex-lite = "0.1"
url = "2"
dirs = "6"
unicode-width = "0.2"
pulldown-cmark = { version = "0.10", default-features = false }
ratatui = "0.29"
crossterm = "0.28"
serde = { version = "1", features = ["derive"] }
serde_json = "1"
