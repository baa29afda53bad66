[package]
name = "ledmatrix"
version = "0.1.0"
edition = "2021"
publish = false

[dependencies]
heapless = "0.8"
rand = "0.8"
tinybmp = "*"
embedded-graphics-core = "0.4"

[dev-dependencies]
fixed = "*"
pio = "*"
