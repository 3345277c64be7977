[package]
name = "mmast_sim"
version = "0.1.0"
edition = "2021"
publish = false

[dependencies]
serde = { version = "1", features = ["derive"] }
serde_json = "1"
anyhow = "1"
clap = { version = "4", features = ["derive"] }
rayon = "1"
tracing = "0.1"
tracing-subscriber = "0.3"
uuid = { version = "1", features = ["v4", "serde"] }
glam = { version = "0.29", features = ["bytemuck"] }
nalgebra = "0.33"
bytemuck = { version = "1", features = ["derive"] }
wasm-bindgen = "0.2"
pollster = "0.4"
