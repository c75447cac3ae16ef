[package]
name = "memo"
version = "0.1.0"
edition = "2021"
publish = false

[dependencies]
chrono = "*"
rand = "*"
anyhow = "*"
clap = { version = "*", features = ["derive", "env"] }
directories = "*"
edit = "*"
cli_select = "*"
crossterm = "*"
