[package]
name = "sector"
version = "0.1.0"
edition = "2021"
publish = false

[dependencies]
rust_bresenham = "=0.1.8"
palette = "=0.7.7"
bevy = { version = "0.10", default-features = false, features = ["bevy_asset", "bevy_scene"] }
rmp-serde = "1"
console_error_panic_hook = "0.1"
