[package]
name = "asteroids"
version = "0.1.0"
edition = "2021"
publish = false

[dependencies]
clap = "2"
log = "0.4"
rand = "0.8"
smallvec = "1"
