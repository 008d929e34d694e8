[package]
name = "spcc"
version = "0.1.0"
edition = "2021"
publish = false

[dependencies]
bevy = { version = "0.11", default-features = false, features = ["bevy_asset"] }
bevy_common_assets = { version = "0.7", features = ["ron"] }
iyes_progress = { version = "0.9", features = ["assets"] }
parry2d = "0.13"
serde = { version = "1", features = ["derive"] }
