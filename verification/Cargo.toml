[package]
name = "moveline"
version = "0.1.0"
edition = "2021"

[dependencies]
nvim-oxi = { version = "=0.6.0", features = ["neovim-0-11"] }
