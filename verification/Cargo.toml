[package]
name = "smup-client"
version = "0.1.0"
edition = "2021"
publish = false

[dependencies]
piston_window = "*"
nphysics2d = "*"
