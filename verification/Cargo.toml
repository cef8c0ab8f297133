[package]
name = "fmtcalc"
version = "0.1.0"
edition = "2021"
publish = false

[dependencies]
dynfmt = { version = "=0.2.0", features = ["curly"] }
