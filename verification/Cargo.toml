[package]
name = "retina"
version = "0.1.0"
edition = "2021"
publish = false

[dependencies]
base64 = "0.13"
bytes = "=1.12.1"
log = "=0.4.34"
md5 = "0.7"
once_cell = "=1.21.4"
rand = "=0.8.8"
rtsp-types = "=0.1.3"
time = "=0.1.45"
