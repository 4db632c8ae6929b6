[package]
name = "raytracer"
version = "0.1.0"
edition = "2021"
publish = false

[dependencies]
rand = "0.8"
flume = "0.11"
tokio = { version = "1", features = ["rt-multi-thread", "macros", "time", "sync"] }
indicatif = "0.17"
image = { version = "0.25", default-features = false, features = ["png"] }
