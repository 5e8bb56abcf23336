[package]
name = "rgb20"
version = "0.1.0"
edition = "2021"
publish = false

[dependencies]
chrono = "=0.4.45"
rgb-std = "0.8"
rgb-core = "=0.8.2"
bitcoin = "=0.28.1"
lnpbp = "=0.8.0"
bp-seals = "=0.8.1"
amplify = "=3.13.0"
