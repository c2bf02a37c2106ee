[package]
name = "falling_sand"
version = "0.1.0"
edition = "2021"
publish = false

[dependencies]
minifb = "0.25"
rand = "0.8"
vek = "*"
