[package]
name = "led_strips"
version = "0.1.0"
edition = "2021"
publish = false

[dependencies]
ruduino = "*"
