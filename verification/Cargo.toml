[package]
name = "isotokyo"
version = "0.1.0"
edition = "2021"
publish = false

[dependencies]
bevy_utils = "0.12"
hashbrown = "0.14"
bincode = "1.3"
serde = { version = "1", features = ["derive"] }
ron = "0.8"
renet = "0.0.14"
