[package]
name = "dice_encounter"
version = "0.1.0"
edition = "2021"
publish = false

[dependencies]
bevy = { version = "=0.11.3", default-features = false, features = ["bevy_asset"] }
bevy_asset_loader = "0.17"
bevy_common_assets = { version = "0.7", features = ["yaml"] }
bevy_turborand = "=0.6.0"
console_error_panic_hook = "0.1"
serde = { version = "1", features = ["derive"] }
