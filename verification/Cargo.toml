[package]
name = "ultima"
version = "0.1.0"
edition = "2021"
publish = false

[dependencies]
chrono = "*"
rusqlite = { version = "*", features = ["bundled"] }
google-calendar3 = "*"
tokio = { version = "*", features = ["macros", "rt-multi-thread"] }
ratatui = "*"
crossterm = "*"
dirs = "*"
num-traits = "*"
rustls = "*"
