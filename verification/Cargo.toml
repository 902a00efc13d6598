[package]
name = "blenvy"
version = "0.1.0"
edition = "2021"
publish = false

[dependencies]
bevy = { version = "=0.15.3", default-features = false, features = ["animation", "bevy_asset", "bevy_scene", "bevy_gltf", "bevy_animation", "bevy_pbr", "bevy_render", "bevy_state"] }
rand = "=0.9.5"
ron = "=0.8.1"
serde = "=1.0.229"
