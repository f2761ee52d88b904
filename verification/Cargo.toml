[package]
name = "rusty-fem"
version = "0.1.0"
edition = "2021"
publish = false

[dependencies]
clap = { version = "4", features = ["derive"] }
nalgebra = "0.33"
serde = { version = "1", features = ["derive"] }
thiserror = "2"
