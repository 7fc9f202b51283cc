[package]
name = "mem_layout"
version = "0.1.0"
edition = "2021"
publish = false

[dependencies]
proc-macro2 = "1"
proc-macro-crate = "1"
quote = "1"
syn = { version = "1", features = ["full"] }
