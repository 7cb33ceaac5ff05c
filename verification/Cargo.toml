[package]
name = "state_machine"
version = "0.1.0"
edition = "2021"
publish = false

[dependencies]
bevy = { version = "0.16", default-features = false, features = ["std", "bevy_color", "bevy_core_pipeline", "bevy_gizmos", "bevy_picking", "bevy_render", "bevy_text", "bevy_ui", "bevy_ui_picking_backend", "bevy_window", "default_font"] }
itertools = "0.14"
rand = "0.9"
uuid = "1"
