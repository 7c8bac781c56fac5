[package]
name = "usbd-serial"
version = "0.2.2"
edition = "2021"
publish = false

[dependencies]
usb-device = "0.3"
embedded-hal = "0.2.7"
nb = "1"
