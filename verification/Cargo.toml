[package]
name = "terminalfarms"
version = "0.1.0"
edition = "2021"
publish = false

[dependencies]
anyhow = "1"
clap = { version = "4", features = ["derive"] }
crossterm = "0.28"
directories = "6"
ratatui = "0.29"
rusqlite = { version = "0.32", features = ["bundled"] }
thiserror = "2"
