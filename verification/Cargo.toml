[package]
name = "parkour"
version = "0.1.0"
edition = "2021"
publish = false

[dependencies]
rand = "=0.8.8"
bincode = "=1.3.3"
serde = { version = "=1.0.229", features = ["derive"] }
bevy_ecs = "0.11"
valence = "0.2.0-alpha.1"
