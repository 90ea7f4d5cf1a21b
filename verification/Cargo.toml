[package]
name = "rustsourcebundler"
version = "0.1.0"
edition = "2021"
publish = false

[dependencies]
anyhow = "*"
cargo_metadata = "*"
cargo_toml = "*"
clap = { version = "*", features = ["derive"] }
quote = "*"
syn = { version = "*", features = ["full", "visit-mut", "printing"] }
