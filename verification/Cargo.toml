[package]
name = "befunge_93"
version = "0.1.0"
edition = "2021"
publish = false

[dependencies]
ansi_term = "0.12"
anyhow = "1"
rand = { version = "0.7", features = ["small_rng"] }
structopt = "0.3"
