[package]
name = "nes_replay"
version = "0.1.0"
edition = "2021"

[dependencies]
tetanes-core = "*"
image = { version = "=0.24.9", default-features = false, features = ["png"] }
