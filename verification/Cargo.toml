[package]
name = "lance_ffi"
version = "0.1.0"
edition = "2021"
publish = false

[dependencies]
tokio = { version = "1", features = ["rt-multi-thread"] }
libc = "0.2"
