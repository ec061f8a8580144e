[package]
name = "tally"
version = "0.1.0"
edition = "2021"
publish = false

[dependencies]
chrono = "=0.4.45"
crossterm = "=0.29.0"
log = "=0.4.35"
nucleo-matcher = "=0.3.1"
ratatui = "=0.30.2"
rusqlite = { version = "=0.41.1", features = ["bundled"] }
serde_json = "=1.0.154"
tui-input = "=0.14.0"
