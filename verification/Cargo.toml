[package]
name = "sage_offers"
version = "0.1.0"
edition = "2021"
publish = false

[dependencies]
chia = "=0.50.0"
indexmap = "*"
serde = { version = "*", features = ["derive"] }
specta = "=1.0.5"

[dev-dependencies]
chia-puzzles = "=0.20.3"
