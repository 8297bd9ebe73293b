[package]
name = "energy"
version = "0.1.0"
edition = "2021"
publish = false

[dependencies]
image = "=0.21.3"
lab = "=0.7.2"
failure = "=0.1.8"
exitfailure = "=0.5.1"
