[package]
name = "pony_reader"
version = "0.1.0"
edition = "2021"
publish = false

[dependencies]
byte-unit = "4"
byteorder = "1"
derivative = "2"
hex = "0.4"
itertools = "0.10"
ron = "0.8"
serde = { version = "1", features = ["derive"] }
zerocopy = "0.6"
