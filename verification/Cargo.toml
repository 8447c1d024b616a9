[package]
name = "asteroids"
version = "0.1.0"
edition = "2021"
publish = false

[dependencies]
fastrand = "2"
bevy = { version = "0.15", default-features = false, features = ["bevy_core_pipeline", "bevy_render", "bevy_sprite", "bevy_state", "bevy_text", "bevy_ui", "bevy_window"] }
bevy_color = "0.15"
bevy_prototype_lyon = "0.13"
