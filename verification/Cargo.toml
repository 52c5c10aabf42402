[package]
name = "godot_bevy"
version = "0.1.0"
edition = "2021"
publish = false

[dependencies]
bevy_app = "0.19"
bevy_asset = "0.19"
bevy_ecs = "0.19"
bevy_math = "0.19"
bevy_tasks = "0.19"
bevy_time = "0.19"
bevy_transform = "0.19"
crossbeam-channel = "0.5"
godot = "*"
parking_lot = "0.12"
thiserror = "2"
tracing = "0.1"
