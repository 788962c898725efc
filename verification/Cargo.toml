[package]
name = "incept"
version = "0.1.0"
edition = "2021"
publish = false

[dependencies]
dirs = "5"
evdev = "0.12"
quick-xml = "0.31"
uinput = "0.1"
