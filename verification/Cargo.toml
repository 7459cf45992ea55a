[package]
name = "codex_mux"
version = "0.1.0"
edition = "2021"
publish = false

[dependencies]
clap = { version = "*", features = ["derive"] }
crossterm = "*"
ratatui = "*"
regex = "*"
rustix = { version = "*", features = ["fs", "process", "net", "event", "time"] }
serde = { version = "*", features = ["derive"] }
serde_json = "*"
thiserror = "*"
toml = "*"
toml_edit = "*"
