[package]
name = "procs"
version = "0.1.0"
edition = "2021"
publish = false

[dependencies]
byte-unit = "*"
unicode-width = "*"
termbg = "*"
clap = { version = "*", features = ["derive"] }
libc = "*"
uzers = "*"
