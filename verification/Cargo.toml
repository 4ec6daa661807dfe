[package]
name = "lightshow"
version = "0.1.0"
edition = "2021"
publish = false

[dependencies]
artnet_protocol = "*"
realfft = "*"
num-complex = "*"
apodize = "*"
ringbuf = "*"
