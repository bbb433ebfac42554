[package]
name = "foundry_tempo"
version = "0.1.0"
edition = "2021"
publish = false

[dependencies]
alloy-primitives = "1.5"
revm = { version = "*", default-features = false, features = ["std"] }
