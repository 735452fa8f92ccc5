[package]
name = "uf_ulog"
version = "0.1.0"
edition = "2021"

[dependencies]
embedded-io = "*"
embedded-io-async = "*"
embassy-sync = "*"
heapless = "*"
syn = { version = "2", features = ["full"] }
quote = "1"
proc-macro2 = "1"
