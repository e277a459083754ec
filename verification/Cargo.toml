[package]
name = "sit"
version = "0.1.0"
edition = "2021"
publish = false

[dependencies]
tar = "*"
zstd = "*"
log = "*"
clap = { version = "*", features = ["derive"] }
fern = "*"
chrono = "*"
