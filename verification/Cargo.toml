[package]
name = "nvrc"
version = "0.1.0"
edition = "2021"
publish = false

[dependencies]
kernlog = "*"
libc = "0.2"
log = "0.4"
