[package]
name = "td_alphabet"
version = "0.1.0"
edition = "2021"
publish = false

[dependencies]
bevy = { version = "=0.10.1", default-features = false, features = ["bevy_asset", "bevy_core_pipeline", "bevy_render", "bevy_sprite", "bevy_winit", "filesystem_watcher", "png", "x11"] }
bevy_asset_loader = { version = "=0.15.0", default-features = false }
bevy_ecs_tilemap = "=0.10.0"
tiled = { version = "=0.11.2", default-features = false }
