[package]
name = "stylus_primitives"
version = "0.1.0"
edition = "2021"
publish = false

[dependencies]
stylus-sdk = "=0.10.10"

[dev-dependencies]
alloy-primitives = "=1.7.3"
alloy-sol-types = "=1.7.3"
