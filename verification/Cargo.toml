[package]
name = "pkbuffer"
version = "0.1.0"
edition = "2021"
publish = false

[dependencies]
proc-macro2 = "1"
quote = "1"
syn = "1"

[dev-dependencies]
hex = "0.4"
