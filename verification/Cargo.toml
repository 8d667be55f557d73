[package]
name = "minemu"
version = "0.1.0"
edition = "2021"
publish = false

[dependencies]
object = "*"
thiserror = "*"
tracing = "*"
unicorn-engine = "*"
bitflags = "*"
