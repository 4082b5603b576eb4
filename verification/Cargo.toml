[package]
name = "zenity_rs"
version = "0.1.0"
edition = "2021"
publish = false

[dependencies]
dirs = "=7.0.0"
lexopt = "=0.3.2"
tiny-skia = "=0.12.0"
ab_glyph = "=0.2.32"
x11rb = { version = "=0.14.0", features = ["xkb"] }
kbvm = { version = "=0.2.0", features = ["x11"] }
wayland-client = "=0.31.15"
wayland-protocols = { version = "=0.32.13", features = ["client"] }
wayland-cursor = "=0.31.14"
memmap2 = "=0.9.12"
tempfile = "=3.27.0"
bitflags = "=2.13.2"
