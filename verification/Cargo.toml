[package]
name = "bevy_iced"
version = "0.1.0"
edition = "2021"
publish = false

[dependencies]
async-trait = "=0.1.64"
bevy = { version = "=0.7.0", default-features = false, features = ["render"] }
crossbeam-channel = "=0.5.17"
iced_native = "=0.5.1"
iced_wgpu = { version = "=0.5.1", default-features = false }
wgpu = "=0.12.0"
