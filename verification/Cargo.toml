[package]
name = "budget_tracker"
version = "0.1.0"
edition = "2021"
publish = false

[dependencies]
chrono = "0.4"
rust_decimal = "1"
rusqlite = { version = "*", features = ["bundled"] }
csv = "1"
dirs = "*"
serde = { version = "1", features = ["derive"] }
serde_json = "1"
semver = "1"
ureq = { version = "*", features = ["json"] }
ratatui = "0.29"
crossterm = "0.28"
