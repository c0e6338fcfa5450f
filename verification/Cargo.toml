[package]
name = "emuchip8"
version = "0.1.0"
edition = "2021"
publish = false

[dependencies]
rand = "=0.8.8"
sdl2 = "=0.38.0"
wasm-bindgen = "=0.2.92"
