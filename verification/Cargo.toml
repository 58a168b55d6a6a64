[package]
name = "cellular_automata"
version = "0.1.0"
edition = "2021"
publish = false

[dependencies]
bevy = { version = "=0.15.3", default-features = false, features = ["bevy_window", "bevy_sprite", "bevy_core_pipeline", "bevy_render", "bevy_state"] }
