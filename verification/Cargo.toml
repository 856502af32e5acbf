[package]
name = "codex-tui"
version = "0.1.0"
edition = "2021"
publish = false

[dependencies]
anyhow = "=1.0.104"
arborium-bash = "=2.18.2"
arborium-c = "*"
arborium-cpp = "*"
arborium-diff = "*"
arborium-go = "*"
arborium-javascript = "*"
arborium-json = "*"
arborium-python = "*"
arborium-rust = "*"
arborium-theme = "=2.18.2"
arborium-toml = "*"
arborium-tsx = "*"
arborium-typescript = "*"
arborium-yaml = "*"
crossterm = "=0.28.1"
ratatui = "=0.29.0"
schemars = "=0.8.22"
serde = { version = "=1.0.229", features = ["derive"] }
serde_json = "=1.0.154"
tracing = "=0.1.44"
tree-sitter-highlight = "=0.27.1"
