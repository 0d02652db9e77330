[package]
name = "broadside"
version = "0.1.0"
edition = "2021"
publish = false

[dependencies]
rand = "0.8"
bevy = "0.6"
bevy_rapier3d = "0.12"
bevy_prototype_debug_lines = "0.6"
