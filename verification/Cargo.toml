[package]
name = "nucleo_l476rg"
version = "0.1.0"
edition = "2021"
publish = false

[dependencies]
embedded-hal = "0.2"
stm32l4xx-hal = { version = "0.6", features = ["stm32l4x6"] }
