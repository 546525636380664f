[package]
name = "chip8"
version = "0.1.0"
edition = "2021"
publish = false

[dependencies]
bitvec = "1"
rand = { version = "0.8", features = ["small_rng"] }
clap = { version = "3.2", features = ["derive"] }
cpal = "0.15"
crossbeam-channel = "0.5"
druid = "0.8"
serde = { version = "1", features = ["derive"] }
spin_sleep = "1"
toml = "0.5"
