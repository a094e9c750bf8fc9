[package]
name = "hexi_lib"
version = "0.1.0"
edition = "2021"
publish = false

[dependencies]
clap = { version = "2", default-features = false }
libc = "0.2"
memmap = "0.7"
