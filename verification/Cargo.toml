[package]
name = "mimi_engine"
version = "0.1.0"
edition = "2021"
publish = false

[dependencies]
anyhow = "1"
byteorder = "1"
crossbeam-channel = "0.5"
fluidlite = "0.2"
midly = "0.5"
serde = { version = "1", features = ["derive"] }
serde_json = "1"
cpal = "0.15"
ratatui = "*"
crossterm = "*"
color-eyre = "0.6"
godot = "*"
