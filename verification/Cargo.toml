[package]
name = "busylight"
version = "0.1.0"
edition = "2021"
publish = false

[dependencies]
rtic-sync = "*"
critical-section = { version = "1", features = ["std"] }
embassy-usb = "*"
embedded-hal = "1"
embedded-hal-async = "1"
rtic-time = "*"
fugit = "*"
log = "0.4"
thiserror = "2"
miette = "7"
clap = { version = "4", features = ["derive"] }
futures = "0.3"
async-hid = "*"
nusb = "*"
