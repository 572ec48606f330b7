[package]
name = "loki_logger"
version = "0.1.0"
edition = "2021"
publish = false

[dependencies]
flate2 = "=1.1.10"
kanal = "=0.1.1"
log = { version = "=0.4.34", features = ["std"] }
rustls = "=0.23.45"
ureq = "=2.12.1"
url = "=2.5.8"
