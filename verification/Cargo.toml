[package]
name = "beam_pipeline"
version = "0.1.0"
edition = "2021"
publish = false

[dependencies]
nalgebra = { version = "*", features = ["serde-serialize"] }
rayon = "*"
serde = { version = "*", features = ["derive"] }
specs = "*"
