[package]
name = "barnacle_beats"
version = "0.1.0"
edition = "2021"
publish = false

[dependencies]
hashbrown = { version = "0.14", features = ["serde"] }
bevy = { version = "0.13", default-features = false }
serde = { version = "1", features = ["derive"] }
