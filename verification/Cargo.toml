[package]
name = "dynboard_gen"
version = "0.1.0"
edition = "2021"
publish = false

[dependencies]
anyhow = "1"
clap = { version = "4", features = ["derive"] }
opencv = "0.94"
rand = "0.9"
reqwest = "0.12"
tokio = { version = "1", features = ["macros", "rt-multi-thread"] }
winit = "0.30"
