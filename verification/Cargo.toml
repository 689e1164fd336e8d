[package]
name = "tictactoe"
version = "0.1.0"
edition = "2021"
publish = false

[dependencies]
rand = "0.7"
colored = "1.9"
structopt = "0.3"
