[package]
name = "ripemd160"
version = "0.3.0"
edition = "2021"
publish = false

[dependencies]
byte-tools = "=0.1.3"
digest = "=0.6.1"
digest-buffer = "=0.1.2"
generic-array = "=0.8.4"
