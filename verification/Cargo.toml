[package]
name = "ring_slint"
version = "0.1.0"
edition = "2021"
publish = false

[dependencies]
arboard = "=3.6.1"
global-hotkey = "=0.8.0"
ksni = { version = "=0.3.6", features = ["blocking"] }
notify-rust = "=4.18.2"
rfd = "=0.15.4"
