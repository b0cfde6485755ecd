[package]
name = "edge_glow"
version = "0.1.0"
edition = "2021"
publish = false

[dependencies]
rustyline = { version = "14", features = ["derive"] }
