[package]
name = "luau_host"
version = "0.1.0"
edition = "2021"
publish = false

[dependencies]
clap = { version = "4", features = ["derive"] }
crossbeam = "0.8"
libc = "0.2"
rayon = "1"
