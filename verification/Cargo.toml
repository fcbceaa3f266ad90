[package]
name = "terrain_planes"
version = "0.1.0"
edition = "2021"
publish = false

[dependencies]
bevy = { version = "0.10", default-features = false, features = ["bevy_asset", "bevy_render", "bevy_pbr", "bevy_core_pipeline"] }
libm = "0.2"
serde = { version = "1", features = ["derive"] }
