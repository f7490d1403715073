[package]
name = "arceus"
version = "0.1.0"
edition = "2021"
publish = false

[dependencies]
dashmap = "6"
local-ip-address = "=0.6.13"
serialport = { version = "=4.10.1", default-features = false }
