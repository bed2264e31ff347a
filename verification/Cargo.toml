[package]
name = "employer_pool"
version = "0.1.0"
edition = "2021"
publish = false

[dependencies]
alloy-primitives = "=0.8.20"
ruint = "=1.12.3"
stylus-sdk = "=0.8.4"
