[package]
name = "audio_controller_core"
version = "0.1.0"
edition = "2021"
publish = false
