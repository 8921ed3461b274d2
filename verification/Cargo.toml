[package]
name = "bevy_suis"
version = "0.1.0"
edition = "2021"
publish = false

[dependencies]
bevy = { version = "=0.16.1", default-features = false, features = ["std", "bevy_log", "bevy_window", "bevy_render", "bevy_gizmos"] }
