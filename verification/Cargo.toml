[package]
name = "beat_timing"
version = "0.1.0"
edition = "2021"
publish = false

[dependencies]
bevy = { version = "=0.17.3", default-features = false, features = ["std", "bevy_asset", "bevy_audio", "bevy_log", "bevy_ui", "bevy_text", "bevy_core_pipeline", "mp3"] }
