[package]
name = "typst_world"
version = "0.1.0"
edition = "2021"
publish = false

[dependencies]
chrono = "=0.4.45"
hex = "=0.4.3"
fast_image_resize = "=6.1.0"
tiny-skia = "=0.12.0"
parking_lot = "=0.12.5"
typst = "=0.15.1"
typst-assets = { version = "=0.15.1", features = ["fonts"] }
typst-layout = "=0.15.1"
typst-pdf = "=0.15.1"
typst-render = "=0.15.1"
typst-svg = "=0.15.1"
