[package]
name = "warped_text"
version = "0.1.0"
edition = "2021"
publish = false

[dependencies]
ab_glyph = "*"
image = "*"
imageproc = "*"

[dev-dependencies]
fs-err = "*"
