[package]
name = "rust_pose_1_rust_only"
version = "0.1.0"
edition = "2021"
publish = false

[dependencies]
anyhow = "1"
clap = { version = "4", features = ["derive"] }
opencv = "*"
serde = { version = "1", features = ["derive"] }
serde_json = "1"
