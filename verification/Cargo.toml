[package]
name = "busca_local"
version = "0.1.0"
edition = "2021"
publish = false

[dependencies]
rand = "0.8"
ratatui = "0.28"
crossterm = "0.28"
