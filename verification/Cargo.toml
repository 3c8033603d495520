[package]
name = "ratatui_crossterm"
version = "0.1.0"
edition = "2021"
publish = false

[dependencies]
crossterm = "=0.29.0"
ratatui-core = { version = "=0.1.2", features = ["std", "underline-color", "scrolling-regions"] }
