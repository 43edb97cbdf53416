[package]
name = "drive_async_iterator"
version = "0.1.0"
edition = "2021"
publish = false

[dependencies]
atomic_refcell = "=0.1.14"
pin-project-lite = "0.2"
proc-macro2 = "=1.0.107"
quote = "=1.0.47"
syn = { version = "=2.0.119", features = ["full"] }
