[package]
name = "memoryfs"
version = "0.1.0"
edition = "2021"
publish = false

[dependencies]
ctrlc = "3"
env_logger = "*"
fuse = "0.3"
libc = "0.2"
log = "0.4"
nix = { version = "0.29", features = ["user"] }
time = "0.1"
