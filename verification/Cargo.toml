[package]
name = "engine"
version = "0.1.0"
edition = "2021"
publish = false

[dependencies]
eyre = "*"
sdl2 = { version = "*", features = ["image", "ttf"] }
sqlx = { version = "*", default-features = false, features = ["sqlite", "runtime-tokio"] }
