[package]
name = "path_input"
version = "0.1.0"
edition = "2021"

[dependencies]
crossterm = "=0.29.0"
dirs = "=7.0.0"
tui-input = { version = "=0.14.0", default-features = false, features = ["crossterm"] }
