[package]
name = "snake_game"
version = "0.1.0"
edition = "2021"
publish = false

[dependencies]
rand = "=0.10.3"
piston_window = "=0.147.0"
