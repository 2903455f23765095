[package]
name = "gasfield"
version = "0.1.0"
edition = "2021"
publish = false

[dependencies]
avian2d = { version = "=0.3.1", default-features = false, features = ["2d", "f32", "parry-f32"] }
bevy = { version = "=0.16.1", default-features = false, features = ["std", "bevy_asset", "bevy_color", "bevy_core_pipeline", "bevy_log", "bevy_pbr", "bevy_render", "bevy_state", "bevy_window", "multi_threaded"] }
bevy_spatial = "=0.11.0"
bevy_tweening = { version = "=0.13.0", default-features = false }
log = "=0.4.34"
noiz = "0.2"
rand = "=0.8.8"
rustc-hash = "=2.1.3"
