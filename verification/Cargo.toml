[package]
name = "sensor_spectrum"
version = "0.1.0"
edition = "2021"
publish = false

[dependencies]
anyhow = "=1.0.104"
cpal = "0.15"
fundsp = "0.15"
num = "=0.4.3"
ringbuf = "=0.3.3"
rustfft = "=6.4.1"
spidev = "=0.7.1"
