[package]
name = "ssd1306_physics"
version = "0.1.0"
edition = "2021"
publish = false

[dependencies]
embassy-ssd1306-graphics = "0.1"
embedded-hal-async = "1.0"
embassy-ssd1306 = "0.6"
