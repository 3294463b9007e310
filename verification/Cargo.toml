[package]
name = "walked"
version = "0.1.0"
edition = "2021"
publish = false

[dependencies]
bytesize = "1.3"
crossterm = "0.28"
ratatui = "0.29"
toml = "0.8"
