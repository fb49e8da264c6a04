[package]
name = "stonefield"
version = "0.1.0"
edition = "2021"
publish = false

[dependencies]
crossterm = "*"
noise = "*"
rand = "*"
ratatui = "*"
