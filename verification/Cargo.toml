[package]
name = "walkabout"
version = "0.1.0"
edition = "2021"
publish = false

[dependencies]
log = "0.4"
sdl2 = { version = "*", features = ["image"] }
specs = "*"
specs-derive = "*"
