[package]
name = "gauge_controller"
version = "0.1.0"
edition = "2021"
publish = false

[dependencies]
cosmwasm-std = "0.16"
serde = { version = "1.0", features = ["derive"] }
