[package]
name = "trustos_drivers"
version = "0.1.0"
edition = "2021"
publish = false

[dependencies]
spin = "0.9"
libm = "0.2"
