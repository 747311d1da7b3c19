[package]
name = "obelisk_bevy"
version = "0.1.0"
edition = "2021"
publish = false

[dependencies]
rand_chacha = "=0.3.1"
rand = "=0.8.8"
bevy = { version = "0.17.3", default-features = false, features = ["std", "bevy_asset", "bevy_log"] }
avian3d = { version = "0.4.1", default-features = false, features = ["3d", "f32", "parry-f32", "default-collider"] }
serde = { version = "1", features = ["derive"] }
ron = "0.10"
toml = "0.9"
thiserror = "2"
