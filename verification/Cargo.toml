[package]
name = "enum_parity"
version = "0.1.0"
edition = "2021"
publish = false

[dependencies]
darling = "*"
itertools = "*"
proc-macro2 = "*"
quote = "*"
syn = { version = "*", features = ["full"] }
