[package]
name = "rust16vm"
version = "0.1.0"
edition = "2021"
publish = false

[dependencies]
async-std = "1"
crossbeam-channel = "0.5"
crossterm = "0.28"
ratatui = { version = "0.29", features = ["unstable-widget-ref"] }
