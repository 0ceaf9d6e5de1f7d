[package]
name = "sfwm"
version = "0.1.0"
edition = "2021"
publish = false

[dependencies]
x11rb = "*"
xmodmap-pke = "*"
