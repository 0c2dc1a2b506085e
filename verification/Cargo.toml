[package]
name = "audio_player"
version = "0.1.0"
edition = "2021"
publish = false

[dependencies]
lofty = "*"
rodio = "*"
thiserror = "*"
cursive = { version = "*", default-features = false, features = ["crossterm-backend"] }
