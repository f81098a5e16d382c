[package]
name = "csvsql"
version = "0.1.0"
edition = "2021"
publish = false

[dependencies]
anyhow = "=1.0.104"
clap = { version = "=4.6.7", features = ["derive"] }
comfy-table = "=8.0.1"
csv = "=1.4.0"
dirs = "=7.0.0"
indicatif = "=0.18.6"
regex = "=1.13.1"
regex-syntax = { version = "=0.8.11", features = ["unicode-perl"] }
rusqlite = { version = "=0.40.2", features = ["bundled", "functions"] }
rustyline = "=18.0.1"
