[package]
name = "light_visibility"
version = "0.1.0"
edition = "2021"
publish = false

[dependencies]
bevy_asset = "=0.7.0"
bevy_ecs = "=0.7.0"
bevy_math = "=0.7.0"
bevy_reflect = "=0.7.0"
bevy_render = "=0.7.0"
bevy_transform = "=0.7.0"
darling = "=0.13.4"
