[package]
name = "ctrl_eqip"
version = "0.1.0"
edition = "2021"
publish = false

[dependencies]
crc = "=3.4.0"
log = "=0.4.35"
thiserror = "=1.0.69"
serialport = "=4.10.1"
ndarray = "=0.17.2"
rayon = "=1.12.0"
fast_image_resize = "=2.7.3"
nokhwa = { version = "=0.10.11", features = ["input-native"] }
ort = "=2.0.0-rc.15"
