[package]
name = "lonely_wanderer"
version = "0.1.0"
edition = "2021"
publish = false

[dependencies]
bevy = { version = "0.13", default-features = false }
big-brain = "0.20"
num-integer = "0.1"
rand = "0.8"
