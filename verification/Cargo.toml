[package]
name = "runner_core"
version = "0.1.0"
edition = "2021"
publish = false

[dependencies]
rand = "0.8"
bevy = { version = "0.15", default-features = false, features = ["bevy_asset", "bevy_scene", "bevy_pbr", "bevy_render", "bevy_core_pipeline", "bevy_ui", "bevy_text", "bevy_state", "bevy_window"] }
avian3d = { version = "0.2", default-features = false, features = ["3d", "f32", "parry-f32", "default-collider", "collider-from-mesh", "bevy_scene"] }
