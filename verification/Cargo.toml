[package]
name = "ldtk_integration"
version = "0.1.0"
edition = "2021"
publish = false

[dependencies]
bevy = { version = "=0.18.1", default-features = false, features = ["std", "bevy_color"] }
bevy_ecs_ldtk = { version = "=0.14.0", default-features = false, features = ["internal_levels"] }
bevy_ecs_tilemap = { version = "=0.18.1", default-features = false }
