[package]
name = "oxwm"
version = "0.8.0"
edition = "2021"
publish = false

[dependencies]
x11rb = { version = "0.13", features = ["cursor", "xinerama"] }
x11 = { version = "2.21", features = ["xlib", "xft"] }
mlua = { version = "0.10", features = ["lua54", "vendored"] }
dirs = "5"
serde = { version = "1", features = ["derive"] }
