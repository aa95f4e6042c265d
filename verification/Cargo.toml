[package]
name = "rusty_snake"
version = "0.1.0"
edition = "2021"
publish = false

[dependencies]
rand = "0.7"
clap = "2.33"
ncurses = "5"

[dev-dependencies]
bincode = "1"
