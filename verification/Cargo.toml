[package]
name = "merging_chess"
version = "0.1.0"
edition = "2021"
publish = false

[dependencies]
arrayvec = "=0.7.8"
minimax-alpha-beta = "=0.2.0"
serde = { version = "1", features = ["derive"] }
