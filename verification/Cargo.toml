[package]
name = "bevy_editor"
version = "0.1.0"
edition = "2021"
publish = false

[dependencies]
open = "5"
parking_lot = "0.12"
serde = { version = "1", features = ["derive"] }
tracing-subscriber = { version = "0.3", features = ["env-filter"] }
