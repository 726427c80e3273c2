[package]
name = "pallet_room"
version = "0.1.0"
edition = "2021"
publish = false

[dependencies]
frame-support = "=49.0.1"
frame-system = "=49.0.0"
sp-core = "=43.0.0"
sp-runtime = "=49.0.0"
serde = { version = "=1.0.229", features = ["derive"] }
