[package]
name = "asak"
version = "0.1.0"
edition = "2021"
publish = false

[dependencies]
anyhow = "*"
chrono = "*"
clap = { version = "*", features = ["derive"] }
colored = "*"
cpal = "*"
crossbeam = "*"
crossterm = "*"
hound = "*"
inquire = "*"
parking_lot = "*"
ratatui = "*"
