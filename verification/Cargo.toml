[package]
name = "sh8601"
version = "0.1.0"
edition = "2021"
publish = false

[dependencies]
embedded-graphics = "0.8"
embedded-graphics-core = "0.4"
embedded-hal = "1.0"
