[package]
name = "tetris_game"
version = "0.1.0"
edition = "2021"
publish = false

[dependencies]
rand = "0.8"
macroquad = "*"
config = "*"
serde = { version = "*", features = ["derive"] }
log = "*"
env_logger = "*"
