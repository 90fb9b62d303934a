[package]
name = "enginep"
version = "0.1.0"
edition = "2021"
publish = false

[dependencies]
num-bigint = "*"
num-traits = "*"
rayon = "*"
parking_lot = "*"
indexmap = "*"
pretty-hex = "*"
nu-ansi-term = "*"
