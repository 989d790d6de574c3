[package]
name = "thermal_exchange"
version = "0.1.0"
edition = "2021"
publish = false

[dependencies]
colortemp = "=0.1.0"
uom = "=0.34.0"
rand = "=0.8.8"
bevy = { version = "=0.10.1", default-features = false, features = ["bevy_asset", "bevy_core_pipeline", "bevy_render", "bevy_sprite", "bevy_winit", "x11", "tonemapping_luts", "ktx2", "zstd"] }
bevy_easings = "=0.10.0"
bevy_prototype_lyon = "=0.8.0"
bevy_rapier2d = "=0.21.0"
