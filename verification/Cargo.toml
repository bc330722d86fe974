[package]
name = "define3"
version = "0.1.0"
edition = "2021"
publish = false

[dependencies]
colored = "*"
dirs = "*"
getopts = "*"
rusqlite = { version = "*", features = ["bundled"] }
textwrap = "*"
