[package]
name = "rpg_battle"
version = "0.1.0"
edition = "2021"
publish = false

[dependencies]
anyhow = "1"
futures = "0.3"
ggez = "0.5"
legion = "0.3"
nalgebra = { version = "0.18", features = ["serde-serialize"] }
once_cell = "1"
serde = { version = "1", features = ["derive"] }
serde_json = "1"
