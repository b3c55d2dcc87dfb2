[package]
name = "incremental_build"
version = "0.1.0"
edition = "2021"
publish = false

[dependencies]
dashmap = "*"
petgraph = "*"
sha2 = "*"
hex = "*"
rayon = "*"
serde = { version = "*", features = ["derive"] }
