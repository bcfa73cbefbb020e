[package]
name = "txp"
version = "0.1.0"
edition = "2021"
publish = false

[dependencies]
ddsfile = "*"
dcv-color-primitives = "*"
