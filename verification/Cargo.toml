[package]
name = "sound_direction"
version = "0.1.0"
edition = "2021"
publish = false

[dependencies]
anyhow = "=1.0.104"
bincode = "1"
env_logger = "=0.11.11"
log = "=0.4.35"
num-complex = "=0.4.6"
rayon = "=1.12.0"
rustfft = "=6.4.1"
serde = { version = "=1.0.229", features = ["derive"] }
serde_yaml = "=0.9.34"
