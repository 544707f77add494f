[package]
name = "dswm"
version = "0.1.0"
edition = "2021"
publish = false

[dependencies]
xcb = { version = "*", features = ["randr", "xkb"] }
log = "*"
log4rs = "*"
