[package]
name = "ion"
version = "0.1.0"
edition = "2021"
publish = false

[dependencies]
mozjs = "=0.10.1"
proc-macro2 = "=1.0.107"
quote = "=1.0.47"
syn = { version = "=2.0.119", features = ["full", "extra-traits", "visit-mut"] }
