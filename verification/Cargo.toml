[package]
name = "herdr-worktree-picker"
version = "1.0.0"
edition = "2021"
publish = false

[dependencies]
crossterm = "0.28"
ratatui = "0.29"
serde_json = "1"
