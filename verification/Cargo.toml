[package]
name = "b_revamp"
version = "0.1.0"
edition = "2021"
publish = false

[dependencies]
chrono = "*"
crossterm = "*"
once_cell = "*"
ratatui = "*"
regex = "*"
serde_json = "*"
shellexpand = "*"
strfmt = "*"
which = "*"
