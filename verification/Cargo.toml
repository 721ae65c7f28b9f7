[package]
name = "text_adventure"
version = "0.1.0"
edition = "2021"
publish = false

[dependencies]
yaml-rust2 = "*"
nom = "7"
ratatui = "*"
crossterm = "*"
pyo3 = "*"
