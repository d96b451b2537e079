[package]
name = "st7735-lcd"
version = "0.1.0"
edition = "2021"
publish = false

[dependencies]
heapless = "0.8"
embedded-hal = "0.2"
embedded-graphics = "0.5"
