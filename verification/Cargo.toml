[package]
name = "solc"
version = "0.1.0"
edition = "2021"
publish = false

[dependencies]
smallvec = "=1.16.4"
clap = { version = "4", features = ["derive"] }
