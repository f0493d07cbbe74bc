[package]
name = "math_render"
version = "0.1.0"
edition = "2021"
publish = false

[dependencies]
quick-xml = "=0.42.0"
harfbuzz_rs = { version = "=3.0.1", features = ["sys"] }
stash = "=0.1.6"
svg = "=0.18.0"
freetype-rs = "=0.38.0"
fontconfig = "=0.11.0"
