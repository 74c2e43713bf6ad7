[package]
name = "poltertype"
version = "0.6.2"
edition = "2021"
publish = false

[dependencies]
evdev = "0.13"
parking_lot = "0.12"
tracing = "0.1"

[dev-dependencies]
libc = "0.2"
