[package]
name = "voxel_agents"
version = "0.1.0"
edition = "2021"
publish = false

[dependencies]
html_parser = "=0.7.0"
fastrand = "=2.5.0"
serde = { version = "1.0", features = ["derive"] }
reqwest = { version = "0.12", default-features = false, features = ["blocking", "json"] }
