[package]
name = "eg_seven_segment"
version = "0.2.0"
edition = "2021"
publish = false

[dependencies]
embedded-graphics = "*"
