[package]
name = "bakr"
version = "0.1.0"
edition = "2021"
publish = false

[dependencies]
tar = "0.4"
zstd = "0.13"
clap = { version = "4", features = ["derive"] }
