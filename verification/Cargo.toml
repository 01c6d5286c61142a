[package]
name = "card25"
version = "0.1.0"
edition = "2021"
publish = false

[dependencies]
ch32-metapac = { version = "=0.1.2", features = ["ch32v003f4u6"] }
qingke = { version = "=0.8.3", features = ["v2a"] }
qingke-rt = { version = "=0.8.3", features = ["v2a"] }
panic-halt = "=1.0.0"
critical-section = "=1.2.0"
