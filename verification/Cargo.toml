[package]
name = "linuxqq-clipsync"
version = "0.1.0"
edition = "2021"
publish = false

[dependencies]
libc = "0.2"
memfd = "0.6"
x11rb = { version = "0.13", features = ["xfixes"] }
xxhash-rust = { version = "0.8", features = ["xxh3"] }
