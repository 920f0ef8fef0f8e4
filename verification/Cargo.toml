[package]
name = "rudder"
version = "0.1.0"
edition = "2021"
publish = false

[dependencies]
shlex = "1"
regex = "1"
which = "*"
serde = { version = "1", features = ["derive"] }
toml = "0.8"
clap = { version = "4", features = ["derive"] }
crossterm = "0.28"
ratatui = "0.29"
ctrlc = "3"
