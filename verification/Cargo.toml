[package]
name = "rops"
version = "0.1.0"
edition = "2021"
publish = false

[dependencies]
age = "0.10"
clap = { version = "4", features = ["derive"] }
dirs = "5"
humantime = "2"
