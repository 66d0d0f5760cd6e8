[package]
name = "filetree"
version = "0.1.0"
edition = "2021"
publish = false

[dependencies]
devicons = "*"
hex_color = "*"
tokio = { version = "*", features = ["full"] }
crossterm = { version = "*", features = ["event-stream"] }
ratatui = "*"
ropey = "*"
clap = { version = "*", features = ["derive"] }
futures = "*"
log = "*"
simplelog = "*"
slotmap = "*"
