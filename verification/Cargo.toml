[package]
name = "superkit_rust_code_for_raspberrypi"
version = "0.1.0"
edition = "2021"
publish = false

[dependencies]
anyhow = "1.0"
ctrlc = "3.1"
hd44780-ntb = "*"
linux-embedded-hal = "0.3"
rand = "0.7"
rppal = "0.11"
