[package]
name = "recursion_core"
version = "0.1.0"
edition = "2021"
publish = false

[dependencies]
indexmap = "=2.14.2"
cairo-air = "=1.3.0"

[dev-dependencies]
stwo = "=2.3.0"
