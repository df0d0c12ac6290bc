[package]
name = "fyrox_gfx"
version = "0.1.0"
edition = "2021"
publish = false

[dependencies]
fxhash = "0.2.1"
fyrox = { version = "1.0.1", default-features = false }
