[package]
name = "psmem"
version = "0.1.0"
edition = "2021"
publish = false

[dependencies]
clap = { version = "3", default-features = false, features = ["std"] }
humansize = "1"
libc = "0.2"
os_str_bytes = "2"
rayon = "1"
regex = "1"
users = "0.11"
