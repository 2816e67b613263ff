[package]
name = "easy_kill_cli"
version = "0.1.0"
edition = "2021"
publish = false

[dependencies]
clap = "*"
console = "*"
libc = "*"
regex = "*"
