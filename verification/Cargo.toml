[package]
name = "chess_cards"
version = "0.1.0"
edition = "2021"
publish = false

[dependencies]
sacrifice = "*"
genanki-rs = "*"
rand = "*"
clap = { version = "*", features = ["derive"] }
