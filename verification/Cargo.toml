[package]
name = "pika"
version = "0.1.0"
edition = "2021"
publish = false

[dependencies]
ropey = "1"
fuzzy-matcher = "0.3"
anyhow = "1"
arboard = "3"
crossterm = "0.28"
csv = "1"
dirs = "5"
log = "0.4"
lsp-types = "0.97"
notify = "7"
notify-debouncer-mini = "0.5"
ratatui = "0.29"
serde = { version = "1", features = ["derive"] }
serde_json = "1"
syntect = "5"
tokio = { version = "1", features = ["full"] }
toml = "0.8"
trash = "5"

[dev-dependencies]
tempfile = "3"
