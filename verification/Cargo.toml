[package]
name = "doubletap_rl"
version = "0.1.0"
edition = "2021"
publish = false

[dependencies]
ctrlc = "*"
libc = "*"
rdev = { version = "0.5", features = ["unstable_grab"] }
thiserror = "*"
tracing = "*"
tracing-subscriber = "*"
x11rb = "*"
