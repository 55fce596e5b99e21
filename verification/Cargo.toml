[package]
name = "qpu_emu"
version = "0.1.0"
edition = "2021"
publish = false

[dependencies]
rustc_apfloat = "*"
byteorder = "1"
rand = "0.8"
