[package]
name = "vault_tui"
version = "0.1.0"
edition = "2021"
publish = false

[dependencies]
chrono = "*"
fuzzy-matcher = "*"
ratatui = "*"
crossterm = "*"
tui-textarea = "*"
